//! Platform rule profiles.
//!
//! Tenhou, Mahjong Soul and Riichi City differ in details such as yakuman multipliers.
//! Every difference that bears on adjudication is a field of the profile.

use vstd::prelude::*;
use vstd::string::*;
use crate::text::{ascii_lower, dec, dec_usize, join2, join3, lower, same, trim, trimmed};
use crate::mahjong::tile::{quote, quoted};

verus! {

/// Platform a rule profile comes from.
#[derive(Debug, Clone, Copy, PartialEq, Eq, Hash, Structural)]
pub enum RulePlatform {
    Tenhou,
    MahjongSoul,
    RiichiCity,
}

impl RulePlatform {
    pub open spec fn spec_as_str(self) -> Seq<char> {
        match self {
            RulePlatform::Tenhou => "tenhou"@,
            RulePlatform::MahjongSoul => "mahjong-soul"@,
            RulePlatform::RiichiCity => "riichi-city"@,
        }
    }

    pub fn as_str(self) -> (r: &'static str)
        ensures
            r@ == self.spec_as_str(),
    {
        match self {
            RulePlatform::Tenhou => "tenhou",
            RulePlatform::MahjongSoul => "mahjong-soul",
            RulePlatform::RiichiCity => "riichi-city",
        }
    }

    /// The platform a normalized name stands for.
    pub open spec fn named(v: Seq<char>) -> Option<RulePlatform> {
        if v == "tenhou"@ {
            Some(RulePlatform::Tenhou)
        } else if v == "majsoul"@ || v == "mahjong-soul"@ || v == "mahjong_soul"@ {
            Some(RulePlatform::MahjongSoul)
        } else if v == "riichi-city"@ || v == "riichi_city"@ || v == "mahjong-ichibangai"@ {
            Some(RulePlatform::RiichiCity)
        } else {
            None
        }
    }

    /// Reads a platform name; surrounding white space and letter case do not matter.
    pub fn from_name(value: &str) -> (r: Result<Self, String>)
        ensures
            match r {
                Ok(p) => Self::named(lower(trimmed(value@))) == Some(p),
                Err(e) => Self::named(lower(trimmed(value@))) is None && e@ == "unknown rule platform "@
                    + quoted(lower(trimmed(value@))) + " (expected tenhou / mahjong-soul / riichi-city)"@,
            },
    {
        let name = ascii_lower(trim(value).as_str());
        let v = name.as_str();
        if same(v, "tenhou") {
            Ok(RulePlatform::Tenhou)
        } else if same(v, "majsoul") || same(v, "mahjong-soul") || same(v, "mahjong_soul") {
            Ok(RulePlatform::MahjongSoul)
        } else if same(v, "riichi-city") || same(v, "riichi_city") || same(v, "mahjong-ichibangai") {
            Ok(RulePlatform::RiichiCity)
        } else {
            Err(join3("unknown rule platform ", quote(v).as_str(), " (expected tenhou / mahjong-soul / riichi-city)"))
        }
    }
}

impl core::str::FromStr for RulePlatform {
    type Err = String;

    fn from_str(value: &str) -> Result<Self, String> {
        RulePlatform::from_name(value)
    }
}

/// How multiple valid ron calls on one discard are resolved.
#[derive(Debug, Clone, Copy, PartialEq, Eq, Hash, Structural)]
pub enum RonResolution {
    /// Only the closest player to the discarder wins (head bump).
    AtamaHane,
    /// Every valid call wins.
    Multiple,
    /// Double ron is allowed; a triple ron in 4-player is an abortive draw.
    TripleRonAbortive,
}

/// Cap for counted yakuman (13+ han from regular yaku and dora).
#[derive(Debug, Clone, Copy, PartialEq, Eq, Hash, Structural)]
pub enum KazoeLimit {
    /// 13+ han scores as a single yakuman.
    Yakuman,
    /// 13+ han is capped at sanbaiman.
    Sanbaiman,
}

/// Restriction on closed kan after riichi.
#[derive(Debug, Clone, Copy, PartialEq, Eq, Hash, Structural)]
pub enum RiichiAnkanRule {
    Forbidden,
    /// Only with the drawn fourth tile, and only if the set of waits is unchanged.
    DrawnFourthAndWaitsUnchanged,
}

/// When kan dora indicators are revealed.
#[derive(Debug, Clone, Copy, PartialEq, Eq, Hash, Structural)]
pub enum KanDoraTiming {
    /// Closed kan reveals before the replacement draw; open and added kans reveal after
    /// the replacement draw and before the next discard.
    AnkanImmediateOpenKanDelayed,
    /// Every kan reveals before the replacement draw.
    Immediate,
}

/// Red five count per suit.
#[derive(Debug, Clone, Copy, PartialEq, Eq, Hash, Structural)]
pub struct RedFiveCounts {
    pub man: u8,
    pub pin: u8,
    pub sou: u8,
}

impl RedFiveCounts {
    /// What is wrong with the counts as a tile set for the given seat count.
    pub open spec fn fault(self, seats: nat) -> Option<Seq<char>> {
        if seats != 3 && seats != 4 {
            Some("rule profile supports 3 or 4 seats, got "@ + dec(seats))
        } else if self.man > 4 {
            Some(over_four(seats, "man"@, self.man))
        } else if self.pin > 4 {
            Some(over_four(seats, "pin"@, self.pin))
        } else if self.sou > 4 {
            Some(over_four(seats, "sou"@, self.sou))
        } else if seats == 3 && self.man != 0 {
            Some("3p wall has no 5m, so the man red five count must be 0, got "@ + dec(self.man as nat))
        } else {
            None
        }
    }

    /// Checks that the counts can form a physical tile set for the given seat count.
    pub fn validate_for_players(self, seats: usize) -> (r: Result<(), String>)
        ensures
            match r {
                Ok(_) => self.fault(seats as nat) is None,
                Err(e) => self.fault(seats as nat) == Some(e@),
            },
    {
        validate_red_fives(seats, self)
    }
}

/// Message for a suit with more than four red fives.
pub open spec fn over_four(seats: nat, suit: Seq<char>, count: u8) -> Seq<char> {
    dec(seats) + "p "@ + suit + " red five count must be in 0..=4, got "@ + dec(count as nat)
}

fn over_four_text(seats: usize, suit: &str, count: u8) -> (r: String)
    ensures
        r@ == over_four(seats as nat, suit@, count),
{
    let mut r = dec_usize(seats);
    r.append("p ");
    r.append(suit);
    r.append(" red five count must be in 0..=4, got ");
    r.append(dec_usize(count as usize).as_str());
    r
}

fn validate_red_fives(seats: usize, counts: RedFiveCounts) -> (r: Result<(), String>)
    ensures
        match r {
            Ok(_) => counts.fault(seats as nat) is None,
            Err(e) => counts.fault(seats as nat) == Some(e@),
        },
{
    if !matches!(seats, 3 | 4) {
        return Err(join2("rule profile supports 3 or 4 seats, got ", dec_usize(seats).as_str()));
    }
    if counts.man > 4 {
        return Err(over_four_text(seats, "man", counts.man));
    }
    if counts.pin > 4 {
        return Err(over_four_text(seats, "pin", counts.pin));
    }
    if counts.sou > 4 {
        return Err(over_four_text(seats, "sou", counts.sou));
    }
    if seats == 3 && counts.man != 0 {
        return Err(
            join2(
                "3p wall has no 5m, so the man red five count must be 0, got ",
                dec_usize(counts.man as usize).as_str(),
            ),
        );
    }
    Ok(())
}

/// Copyable riichi rule profile for a platform.
///
/// Add a field for each new platform difference rather than branching on the platform
/// elsewhere.
#[derive(Debug, Clone, Copy, PartialEq, Eq, Hash, Structural)]
pub struct RiichiRuleProfile {
    pub platform: RulePlatform,
    /// Open tanyao (kuitan).
    pub open_tanyao: bool,
    /// Red fives in a standard 4-player wall.
    pub red_fives_4p: RedFiveCounts,
    /// Red fives in a standard 3-player wall.
    pub red_fives_3p: RedFiveCounts,
    /// Starting score (4-player / 3-player).
    pub start_score_4p: i32,
    pub start_score_3p: i32,
    /// Target score (4-player / 3-player), used for extension and game-end checks.
    pub target_score_4p: i32,
    pub target_score_3p: i32,
    /// End the game when a score drops below zero (exactly 0 continues).
    pub bust_below_zero: bool,
    /// Maximum number of extra rounds after the scheduled last round.
    pub max_extra_bakaze: u8,
    /// Agariyame: in the final hand, a winning dealer in first place at or above the target may end the game.
    pub agariyame: bool,
    /// Tenpaiyame: same as `agariyame`, for a dealer tenpai at an exhaustive draw.
    pub tenpaiyame: bool,
    /// Forbid swap calling (same-tile and suji kuikae).
    pub kuikae_forbidden: bool,
    /// Round 4 han 30 fu and 3 han 60 fu up to mangan (kiriage).
    pub kiriage_mangan: bool,
    pub kazoe_limit: KazoeLimit,
    /// Whether 13-sided kokushi, suuankou tanki, junsei chuuren and daisuushi each score double yakuman.
    pub double_special_yakuman: bool,
    pub ron_resolution: RonResolution,
    /// Whether kokushi may rob a closed kan.
    pub kokushi_ankan_ron: bool,
    /// Whether a nukidora may be robbed with ron in 3-player.
    pub nukidora_ron: bool,
    pub nagashi_mangan: bool,
    /// Pao (liability payment) for daisangen and daisuushi.
    pub pao: bool,
    /// Abortive draw on four kans by different players.
    pub suukaikan: bool,
    /// Abortive draw on four riichi (4-player).
    pub suucha_riichi: bool,
    /// Whether riichi may be declared with no draws left (including declaring on the haitei discard).
    pub no_draw_riichi: bool,
    pub riichi_ankan: RiichiAnkanRule,
    pub kan_dora_timing: KanDoraTiming,
    /// On consecutive kans, whether the pending indicator from the previous kan is
    /// revealed at the moment of the next kan or nukidora declaration (Mahjong Soul).
    /// When `false`, it is revealed after the robbing window and before the replacement
    /// draw (Tenhou).
    pub kan_dora_pending_flush_at_declaration: bool,
    /// In 3-player, whether a nukidora declaration after the fourth kan triggers the
    /// four-kan abortive draw. Tenhou triggers it immediately without a replacement
    /// draw; Mahjong Soul does not, and a later rinshan tsumo still scores.
    pub suukaikan_on_kita_declaration: bool,
    /// Han each nukidora adds by itself, independent of indicators pointing at North.
    pub nuki_dora_han: u8,
}

impl Default for RiichiRuleProfile {
    /// Tenhou is the default; integrations name their platform.
    fn default() -> (r: Self)
        ensures
            r == RiichiRuleProfile::tenhou(),
    {
        Self::tenhou()
    }
}

impl core::str::FromStr for RiichiRuleProfile {
    type Err = String;

    fn from_str(value: &str) -> Result<Self, String> {
        RiichiRuleProfile::from_name(value)
    }
}

impl RiichiRuleProfile {
    /// The platform's name.
    pub fn as_str(self) -> (r: &'static str)
        ensures
            r@ == self.platform.spec_as_str(),
    {
        self.platform.as_str()
    }

    /// The profile of a named platform.
    pub fn from_name(value: &str) -> (r: Result<Self, String>)
        ensures
            match r {
                Ok(p) => RulePlatform::named(lower(trimmed(value@))) is Some
                    && p == Self::from_platform(RulePlatform::named(lower(trimmed(value@)))->0),
                Err(e) => RulePlatform::named(lower(trimmed(value@))) is None && e@ == "unknown rule platform "@
                    + quoted(lower(trimmed(value@))) + " (expected tenhou / mahjong-soul / riichi-city)"@,
            },
    {
        match RulePlatform::from_name(value) {
            Ok(p) => Ok(Self::from_platform(p)),
            Err(e) => Err(e),
        }
    }

    pub fn platform(self) -> (r: RulePlatform)
        ensures
            r == self.platform,
    {
        self.platform
    }

    pub fn allows_open_tanyao(self) -> (r: bool)
        ensures
            r == self.open_tanyao,
    {
        self.open_tanyao
    }

    pub fn bust_below_zero(self) -> (r: bool)
        ensures
            r == self.bust_below_zero,
    {
        self.bust_below_zero
    }

    pub fn max_extra_bakaze(self) -> (r: u8)
        ensures
            r == self.max_extra_bakaze,
    {
        self.max_extra_bakaze
    }

    pub fn allows_agariyame(self) -> (r: bool)
        ensures
            r == self.agariyame,
    {
        self.agariyame
    }

    pub fn allows_tenpaiyame(self) -> (r: bool)
        ensures
            r == self.tenpaiyame,
    {
        self.tenpaiyame
    }

    pub fn kuikae_forbidden(self) -> (r: bool)
        ensures
            r == self.kuikae_forbidden,
    {
        self.kuikae_forbidden
    }

    pub fn kiriage_mangan(self) -> (r: bool)
        ensures
            r == self.kiriage_mangan,
    {
        self.kiriage_mangan
    }

    pub fn kazoe_limit(self) -> (r: KazoeLimit)
        ensures
            r == self.kazoe_limit,
    {
        self.kazoe_limit
    }

    pub fn double_special_yakuman(self) -> (r: bool)
        ensures
            r == self.double_special_yakuman,
    {
        self.double_special_yakuman
    }

    pub fn ron_resolution(self) -> (r: RonResolution)
        ensures
            r == self.ron_resolution,
    {
        self.ron_resolution
    }

    pub fn allows_kokushi_ankan_ron(self) -> (r: bool)
        ensures
            r == self.kokushi_ankan_ron,
    {
        self.kokushi_ankan_ron
    }

    pub fn allows_nukidora_ron(self) -> (r: bool)
        ensures
            r == self.nukidora_ron,
    {
        self.nukidora_ron
    }

    pub fn allows_nagashi_mangan(self) -> (r: bool)
        ensures
            r == self.nagashi_mangan,
    {
        self.nagashi_mangan
    }

    pub fn allows_pao(self) -> (r: bool)
        ensures
            r == self.pao,
    {
        self.pao
    }

    pub fn allows_suukaikan(self) -> (r: bool)
        ensures
            r == self.suukaikan,
    {
        self.suukaikan
    }

    pub fn allows_no_draw_riichi(self) -> (r: bool)
        ensures
            r == self.no_draw_riichi,
    {
        self.no_draw_riichi
    }

    pub fn allows_suucha_riichi(self) -> (r: bool)
        ensures
            r == self.suucha_riichi,
    {
        self.suucha_riichi
    }

    pub fn riichi_ankan_rule(self) -> (r: RiichiAnkanRule)
        ensures
            r == self.riichi_ankan,
    {
        self.riichi_ankan
    }

    pub fn kan_dora_timing(self) -> (r: KanDoraTiming)
        ensures
            r == self.kan_dora_timing,
    {
        self.kan_dora_timing
    }

    pub fn kan_dora_pending_flush_at_declaration(self) -> (r: bool)
        ensures
            r == self.kan_dora_pending_flush_at_declaration,
    {
        self.kan_dora_pending_flush_at_declaration
    }

    pub fn suukaikan_on_kita_declaration(self) -> (r: bool)
        ensures
            r == self.suukaikan_on_kita_declaration,
    {
        self.suukaikan_on_kita_declaration
    }

    pub fn nuki_dora_han(self) -> (r: u8)
        ensures
            r == self.nuki_dora_han,
    {
        self.nuki_dora_han
    }

    pub open spec fn spec_red_fives(self, seats: usize) -> RedFiveCounts {
        if seats == 3 { self.red_fives_3p } else { self.red_fives_4p }
    }

    #[verifier::when_used_as_spec(spec_red_fives)]
    pub fn red_fives(self, seats: usize) -> (r: RedFiveCounts)
        ensures
            r == self.red_fives(seats),
    {
        if seats == 3 {
            self.red_fives_3p
        } else {
            self.red_fives_4p
        }
    }

    pub open spec fn spec_start_score(self, seats: usize) -> i32 {
        if seats == 3 { self.start_score_3p } else { self.start_score_4p }
    }

    #[verifier::when_used_as_spec(spec_start_score)]
    pub fn start_score(self, seats: usize) -> (r: i32)
        ensures
            r == self.start_score(seats),
    {
        if seats == 3 {
            self.start_score_3p
        } else {
            self.start_score_4p
        }
    }

    pub open spec fn spec_target_score(self, seats: usize) -> i32 {
        if seats == 3 { self.target_score_3p } else { self.target_score_4p }
    }

    #[verifier::when_used_as_spec(spec_target_score)]
    pub fn target_score(self, seats: usize) -> (r: i32)
        ensures
            r == self.target_score(seats),
    {
        if seats == 3 {
            self.target_score_3p
        } else {
            self.target_score_4p
        }
    }

    /// Overrides the red five counts for the given seat count.
    ///
    /// Red fives replace plain fives, so each suit allows `0..=4`. The three-player wall has
    /// no 5m, so `man` must be 0 there.
    pub fn with_red_fives(self, seats: usize, counts: RedFiveCounts) -> (r: Result<Self, String>)
        ensures
            match r {
                Ok(p) => counts.fault(seats as nat) is None && (seats == 4 || seats == 3) && (seats == 4 ==> p
                    == (RiichiRuleProfile { red_fives_4p: counts, ..self })) && (seats == 3 ==> p == (
                RiichiRuleProfile { red_fives_3p: counts, ..self })),
                Err(e) => counts.fault(seats as nat) == Some(e@),
            },
    {
        match validate_red_fives(seats, counts) {
            Err(e) => Err(e),
            Ok(_) => {
                if seats == 4 {
                    Ok(RiichiRuleProfile { red_fives_4p: counts, ..self })
                } else {
                    Ok(RiichiRuleProfile { red_fives_3p: counts, ..self })
                }
            },
        }
    }

    /// Checks that the profile can form a physical wall for the given seat count.
    pub fn validate_for_players(self, seats: usize) -> (r: Result<(), String>)
        ensures
            match r {
                Ok(_) => self.red_fives(seats).fault(seats as nat) is None,
                Err(e) => self.red_fives(seats).fault(seats as nat) == Some(e@),
            },
    {
        self.red_fives(seats).validate_for_players(seats)
    }

    /// Room-level variant for head bump / multiple ron.
    pub fn with_ron_resolution(self, ron_resolution: RonResolution) -> (r: Self)
        ensures
            r == (RiichiRuleProfile { ron_resolution, ..self }),
    {
        RiichiRuleProfile { ron_resolution, ..self }
    }

    /// Room-level variant for riichi with no draws left.
    pub fn with_no_draw_riichi(self, enabled: bool) -> (r: Self)
        ensures
            r == (RiichiRuleProfile { no_draw_riichi: enabled, ..self }),
    {
        RiichiRuleProfile { no_draw_riichi: enabled, ..self }
    }

    pub fn with_open_tanyao(self, enabled: bool) -> (r: Self)
        ensures
            r == (RiichiRuleProfile { open_tanyao: enabled, ..self }),
    {
        RiichiRuleProfile { open_tanyao: enabled, ..self }
    }

    /// Room-level variant for starting and target score.
    pub fn with_match_points(self, start_score_4p: i32, target_score_4p: i32, start_score_3p: i32, target_score_3p: i32) -> (r: Self)
        ensures
            r == (RiichiRuleProfile { start_score_4p, target_score_4p, start_score_3p, target_score_3p, ..self }),
    {
        RiichiRuleProfile { start_score_4p, target_score_4p, start_score_3p, target_score_3p, ..self }
    }

    /// Room-level variant for game-end rules.
    pub fn with_end_rules(self, bust_below_zero: bool, max_extra_bakaze: u8, agariyame: bool, tenpaiyame: bool) -> (r: Self)
        ensures
            r == (RiichiRuleProfile { bust_below_zero, max_extra_bakaze, agariyame, tenpaiyame, ..self }),
    {
        RiichiRuleProfile { bust_below_zero, max_extra_bakaze, agariyame, tenpaiyame, ..self }
    }

    /// Room-level variant for kuikae.
    pub fn with_kuikae_forbidden(self, forbidden: bool) -> (r: Self)
        ensures
            r == (RiichiRuleProfile { kuikae_forbidden: forbidden, ..self }),
    {
        RiichiRuleProfile { kuikae_forbidden: forbidden, ..self }
    }

    /// Room-level variant for scoring caps.
    pub fn with_scoring_limits(self, kiriage_mangan: bool, kazoe_limit: KazoeLimit) -> (r: Self)
        ensures
            r == (RiichiRuleProfile { kiriage_mangan, kazoe_limit, ..self }),
    {
        RiichiRuleProfile { kiriage_mangan, kazoe_limit, ..self }
    }

    /// Room-level variant for closed kan after riichi.
    pub fn with_riichi_ankan_rule(self, rule: RiichiAnkanRule) -> (r: Self)
        ensures
            r == (RiichiRuleProfile { riichi_ankan: rule, ..self }),
    {
        RiichiRuleProfile { riichi_ankan: rule, ..self }
    }

    /// Room-level variant for kan dora timing.
    pub fn with_kan_dora_timing(self, timing: KanDoraTiming) -> (r: Self)
        ensures
            r == (RiichiRuleProfile { kan_dora_timing: timing, ..self }),
    {
        RiichiRuleProfile { kan_dora_timing: timing, ..self }
    }

    pub fn with_kan_dora_pending_flush_at_declaration(self, enabled: bool) -> (r: Self)
        ensures
            r == (RiichiRuleProfile { kan_dora_pending_flush_at_declaration: enabled, ..self }),
    {
        RiichiRuleProfile { kan_dora_pending_flush_at_declaration: enabled, ..self }
    }

    pub fn with_suukaikan_on_kita_declaration(self, enabled: bool) -> (r: Self)
        ensures
            r == (RiichiRuleProfile { suukaikan_on_kita_declaration: enabled, ..self }),
    {
        RiichiRuleProfile { suukaikan_on_kita_declaration: enabled, ..self }
    }

    pub open spec fn spec_tenhou() -> RiichiRuleProfile {
        RiichiRuleProfile {
            platform: RulePlatform::Tenhou,
            open_tanyao: true,
            red_fives_4p: RedFiveCounts {
                man: 1,
                pin: 1,
                sou: 1,
            },
            red_fives_3p: RedFiveCounts {
                man: 0,
                pin: 1,
                sou: 1,
            },
            start_score_4p: 25000,
            start_score_3p: 35000,
            target_score_4p: 30000,
            target_score_3p: 40000,
            bust_below_zero: true,
            max_extra_bakaze: 1,
            agariyame: true,
            tenpaiyame: true,
            kuikae_forbidden: true,
            kiriage_mangan: false,
            kazoe_limit: KazoeLimit::Yakuman,
            double_special_yakuman: false,
            ron_resolution: RonResolution::TripleRonAbortive,
            kokushi_ankan_ron: false,
            nukidora_ron: true,
            nagashi_mangan: true,
            pao: true,
            suukaikan: true,
            suucha_riichi: true,
            no_draw_riichi: false,
            riichi_ankan: RiichiAnkanRule::DrawnFourthAndWaitsUnchanged,
            kan_dora_timing: KanDoraTiming::AnkanImmediateOpenKanDelayed,
            kan_dora_pending_flush_at_declaration: false,
            suukaikan_on_kita_declaration: true,
            nuki_dora_han: 1,
        }
    }

    #[verifier::when_used_as_spec(spec_tenhou)]
    pub fn tenhou() -> (r: Self)
        ensures
            r == Self::tenhou(),
    {
        RiichiRuleProfile {
            platform: RulePlatform::Tenhou,
            open_tanyao: true,
            red_fives_4p: RedFiveCounts {
                man: 1,
                pin: 1,
                sou: 1,
            },
            red_fives_3p: RedFiveCounts {
                man: 0,
                pin: 1,
                sou: 1,
            },
            start_score_4p: 25_000,
            start_score_3p: 35_000,
            target_score_4p: 30_000,
            target_score_3p: 40_000,
            bust_below_zero: true,
            max_extra_bakaze: 1,
            agariyame: true,
            tenpaiyame: true,
            kuikae_forbidden: true,
            kiriage_mangan: false,
            kazoe_limit: KazoeLimit::Yakuman,
            double_special_yakuman: false,
            ron_resolution: RonResolution::TripleRonAbortive,
            kokushi_ankan_ron: false,
            nukidora_ron: true,
            nagashi_mangan: true,
            pao: true,
            suukaikan: true,
            suucha_riichi: true,
            // Tenhou requires 1000+ points and a remaining draw to declare riichi. Match logs
            // do not record this option, so the documented rule is used.
            no_draw_riichi: false,
            riichi_ankan: RiichiAnkanRule::DrawnFourthAndWaitsUnchanged,
            kan_dora_timing: KanDoraTiming::AnkanImmediateOpenKanDelayed,
            // Tenhou reveals the pending indicator together with the next kan's after its
            // robbing window; if the kan is robbed it is not revealed.
            kan_dora_pending_flush_at_declaration: false,
            // Tenhou: passing the nukidora window triggers the four-kan draw, with no replacement draw.
            suukaikan_on_kita_declaration: true,
            nuki_dora_han: 1,
        }
    }

    pub open spec fn spec_mahjong_soul() -> RiichiRuleProfile {
        RiichiRuleProfile {
            platform: RulePlatform::MahjongSoul,
            open_tanyao: true,
            red_fives_4p: RedFiveCounts {
                man: 1,
                pin: 1,
                sou: 1,
            },
            red_fives_3p: RedFiveCounts {
                man: 0,
                pin: 1,
                sou: 1,
            },
            start_score_4p: 25000,
            start_score_3p: 35000,
            target_score_4p: 30000,
            target_score_3p: 40000,
            bust_below_zero: true,
            max_extra_bakaze: 1,
            agariyame: true,
            tenpaiyame: true,
            kuikae_forbidden: true,
            kiriage_mangan: false,
            kazoe_limit: KazoeLimit::Yakuman,
            double_special_yakuman: true,
            ron_resolution: RonResolution::Multiple,
            kokushi_ankan_ron: true,
            nukidora_ron: true,
            nagashi_mangan: true,
            pao: true,
            suukaikan: true,
            suucha_riichi: true,
            no_draw_riichi: false,
            riichi_ankan: RiichiAnkanRule::DrawnFourthAndWaitsUnchanged,
            kan_dora_timing: KanDoraTiming::AnkanImmediateOpenKanDelayed,
            kan_dora_pending_flush_at_declaration: true,
            suukaikan_on_kita_declaration: false,
            nuki_dora_han: 1,
        }
    }

    #[verifier::when_used_as_spec(spec_mahjong_soul)]
    pub fn mahjong_soul() -> (r: Self)
        ensures
            r == Self::mahjong_soul(),
    {
        RiichiRuleProfile {
            platform: RulePlatform::MahjongSoul,
            open_tanyao: true,
            red_fives_4p: RedFiveCounts {
                man: 1,
                pin: 1,
                sou: 1,
            },
            red_fives_3p: RedFiveCounts {
                man: 0,
                pin: 1,
                sou: 1,
            },
            start_score_4p: 25_000,
            start_score_3p: 35_000,
            target_score_4p: 30_000,
            target_score_3p: 40_000,
            bust_below_zero: true,
            max_extra_bakaze: 1,
            agariyame: true,
            tenpaiyame: true,
            kuikae_forbidden: true,
            // Not specified in Mahjong Soul's public FAQ; defaults to no kiriage.
            kiriage_mangan: false,
            kazoe_limit: KazoeLimit::Yakuman,
            double_special_yakuman: true,
            ron_resolution: RonResolution::Multiple,
            kokushi_ankan_ron: true,
            nukidora_ron: true,
            nagashi_mangan: true,
            pao: true,
            suukaikan: true,
            suucha_riichi: true,
            // Not specified in Mahjong Soul's public FAQ; defaults to forbidden.
            no_draw_riichi: false,
            riichi_ankan: RiichiAnkanRule::DrawnFourthAndWaitsUnchanged,
            kan_dora_timing: KanDoraTiming::AnkanImmediateOpenKanDelayed,
            // Mahjong Soul reveals the pending indicator when the next kan or nukidora is
            // declared, so a robbing player gets it.
            kan_dora_pending_flush_at_declaration: true,
            // Mahjong Soul: nukidora does not trigger the four-kan draw; the replacement draw
            // and a following rinshan tsumo proceed normally.
            suukaikan_on_kita_declaration: false,
            nuki_dora_han: 1,
        }
    }

    pub open spec fn spec_riichi_city() -> RiichiRuleProfile {
        RiichiRuleProfile {
            platform: RulePlatform::RiichiCity,
            open_tanyao: true,
            red_fives_4p: RedFiveCounts {
                man: 1,
                pin: 1,
                sou: 1,
            },
            red_fives_3p: RedFiveCounts {
                man: 0,
                pin: 1,
                sou: 1,
            },
            start_score_4p: 25000,
            start_score_3p: 35000,
            target_score_4p: 30000,
            target_score_3p: 40000,
            bust_below_zero: true,
            max_extra_bakaze: 1,
            agariyame: true,
            tenpaiyame: true,
            kuikae_forbidden: true,
            kiriage_mangan: false,
            kazoe_limit: KazoeLimit::Yakuman,
            double_special_yakuman: true,
            ron_resolution: RonResolution::Multiple,
            kokushi_ankan_ron: true,
            nukidora_ron: true,
            nagashi_mangan: true,
            pao: true,
            suukaikan: true,
            suucha_riichi: true,
            no_draw_riichi: false,
            riichi_ankan: RiichiAnkanRule::DrawnFourthAndWaitsUnchanged,
            kan_dora_timing: KanDoraTiming::AnkanImmediateOpenKanDelayed,
            kan_dora_pending_flush_at_declaration: false,
            suukaikan_on_kita_declaration: true,
            nuki_dora_han: 1,
        }
    }

    #[verifier::when_used_as_spec(spec_riichi_city)]
    pub fn riichi_city() -> (r: Self)
        ensures
            r == Self::riichi_city(),
    {
        RiichiRuleProfile {
            platform: RulePlatform::RiichiCity,
            open_tanyao: true,
            red_fives_4p: RedFiveCounts {
                man: 1,
                pin: 1,
                sou: 1,
            },
            red_fives_3p: RedFiveCounts {
                man: 0,
                pin: 1,
                sou: 1,
            },
            start_score_4p: 25_000,
            start_score_3p: 35_000,
            target_score_4p: 30_000,
            target_score_3p: 40_000,
            bust_below_zero: true,
            max_extra_bakaze: 1,
            agariyame: true,
            tenpaiyame: true,
            kuikae_forbidden: true,
            // No citable official rule page for Riichi City; conservative default.
            kiriage_mangan: false,
            kazoe_limit: KazoeLimit::Yakuman,
            double_special_yakuman: true,
            ron_resolution: RonResolution::Multiple,
            kokushi_ankan_ron: true,
            nukidora_ron: true,
            nagashi_mangan: true,
            pao: true,
            suukaikan: true,
            suucha_riichi: true,
            // No citable official rule page for Riichi City; conservative default.
            no_draw_riichi: false,
            riichi_ankan: RiichiAnkanRule::DrawnFourthAndWaitsUnchanged,
            kan_dora_timing: KanDoraTiming::AnkanImmediateOpenKanDelayed,
            // No evidence for Riichi City; follows Tenhou.
            kan_dora_pending_flush_at_declaration: false,
            // No evidence for Riichi City; follows Tenhou.
            suukaikan_on_kita_declaration: true,
            nuki_dora_han: 1,
        }
    }

    pub open spec fn spec_from_platform(platform: RulePlatform) -> RiichiRuleProfile {
        match platform {
            RulePlatform::Tenhou => Self::tenhou(),
            RulePlatform::MahjongSoul => Self::mahjong_soul(),
            RulePlatform::RiichiCity => Self::riichi_city(),
        }
    }

    #[verifier::when_used_as_spec(spec_from_platform)]
    pub fn from_platform(platform: RulePlatform) -> (r: Self)
        ensures
            r == Self::from_platform(platform),
    {
        match platform {
            RulePlatform::Tenhou => Self::tenhou(),
            RulePlatform::MahjongSoul => Self::mahjong_soul(),
            RulePlatform::RiichiCity => Self::riichi_city(),
        }
    }
}

/// Each preset can form a wall for three and for four players, and belongs to the platform it
/// is named after.
pub proof fn presets_are_playable(platform: RulePlatform)
    ensures
        RiichiRuleProfile::from_platform(platform).platform == platform,
        RiichiRuleProfile::from_platform(platform).red_fives(3).fault(3) is None,
        RiichiRuleProfile::from_platform(platform).red_fives(4).fault(4) is None,
{
}

/// A platform's own name is read as that platform.
pub proof fn platform_name_is_read_back(platform: RulePlatform)
    ensures
        RulePlatform::named(platform.spec_as_str()) == Some(platform),
{
    reveal_strlit("tenhou");
    reveal_strlit("mahjong-soul");
    reveal_strlit("riichi-city");
    reveal_strlit("majsoul");
    reveal_strlit("mahjong_soul");
    assert("tenhou"@[0] == 't');
    assert("mahjong-soul"@[0] == 'm');
    assert("riichi-city"@[0] == 'r');
    assert("majsoul"@[0] == 'm');
    assert("mahjong_soul"@[0] == 'm');
}

} // verus!
