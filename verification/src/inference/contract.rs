//! The terms of a decision: legal actions, the engine's answer, errors and capabilities.

use vstd::prelude::*;
use vstd::string::*;
use crate::mahjong::tile::Tile;
use crate::text::{dec, dec_usize, owned};

verus! {

/// First version of the protocol between host and engine.
pub const FLYA_INFERENCE_PROTOCOL_V1: &'static str = "flya-inference-v1";
/// Second version, with the dealer's opening and forced autoplay.
pub const FLYA_INFERENCE_PROTOCOL_V2: &'static str = "flya-inference-v2";

/// Which game is played.
#[derive(Debug, Clone, Copy, PartialEq, Eq, Structural)]
pub enum RuleLine {
    Riichi4p,
    Riichi3p,
}

impl RuleLine {
    pub open spec fn spec_wire_value(self) -> Seq<char> {
        match self {
            RuleLine::Riichi4p => "riichi4p"@,
            RuleLine::Riichi3p => "riichi3p"@,
        }
    }

    pub fn wire_value(self) -> (r: &'static str)
        ensures
            r@ == self.spec_wire_value(),
    {
        match self {
            RuleLine::Riichi4p => "riichi4p",
            RuleLine::Riichi3p => "riichi3p",
        }
    }
}

#[derive(Debug, Clone, Copy, PartialEq, Eq, Structural)]
pub enum KanKind {
    Ankan,
    Kakan,
    Daiminkan,
}

/// What a seat that passes declines.
#[derive(Debug, Clone, Copy, PartialEq, Eq, Structural)]
pub struct ResponseOpportunities {
    pub ron: bool,
    pub call: bool,
}

/// An action that a seat may take. Chi exists at four-player tables and nukidora at
/// three-player tables.
#[derive(Debug, PartialEq, Eq)]
#[allow(inconsistent_fields)]
pub enum LegalAction {
    Discard { pai: Tile, tsumogiri: bool, riichi: bool },
    /// The dealer's first discard, which is neither drawn nor from hand.
    DealerOpeningDiscard { pai: Tile, riichi: bool },
    Kan { pai: Tile, kind: KanKind, consumed: Vec<Tile> },
    Nukidora,
    Tsumo { pai: Tile },
    DealerOpeningTsumo,
    Kyushukyuhai,
    PassAll { declines: ResponseOpportunities },
    Pon { pai: Tile, consumed: [Tile; 2] },
    Chi { pai: Tile, consumed: [Tile; 2] },
    Ron { pai: Tile, target: u8 },
}

/// What a legal action says.
#[allow(inconsistent_fields)]
pub ghost enum ActionFacts {
    Discard { pai: Tile, tsumogiri: bool, riichi: bool },
    DealerOpeningDiscard { pai: Tile, riichi: bool },
    Kan { pai: Tile, kind: KanKind, consumed: Seq<Tile> },
    Nukidora,
    Tsumo { pai: Tile },
    DealerOpeningTsumo,
    Kyushukyuhai,
    PassAll { declines: ResponseOpportunities },
    Pon { pai: Tile, consumed: Seq<Tile> },
    Chi { pai: Tile, consumed: Seq<Tile> },
    Ron { pai: Tile, target: u8 },
}

impl View for LegalAction {
    type V = ActionFacts;

    open spec fn view(&self) -> ActionFacts {
        match *self {
            LegalAction::Discard { pai, tsumogiri, riichi } => ActionFacts::Discard { pai, tsumogiri, riichi },
            LegalAction::DealerOpeningDiscard { pai, riichi } => ActionFacts::DealerOpeningDiscard { pai, riichi },
            LegalAction::Kan { pai, kind, consumed } => ActionFacts::Kan { pai, kind, consumed: consumed@ },
            LegalAction::Nukidora => ActionFacts::Nukidora,
            LegalAction::Tsumo { pai } => ActionFacts::Tsumo { pai },
            LegalAction::DealerOpeningTsumo => ActionFacts::DealerOpeningTsumo,
            LegalAction::Kyushukyuhai => ActionFacts::Kyushukyuhai,
            LegalAction::PassAll { declines } => ActionFacts::PassAll { declines },
            LegalAction::Pon { pai, consumed } => ActionFacts::Pon { pai, consumed: consumed@ },
            LegalAction::Chi { pai, consumed } => ActionFacts::Chi { pai, consumed: consumed@ },
            LegalAction::Ron { pai, target } => ActionFacts::Ron { pai, target },
        }
    }
}

pub open spec fn actions_view(actions: Seq<LegalAction>) -> Seq<ActionFacts> {
    Seq::new(actions.len(), |i: int| actions[i]@)
}

/// The type of an action in messages.
pub open spec fn wire_type(a: ActionFacts) -> Seq<char> {
    match a {
        ActionFacts::Discard { .. } => "dahai"@,
        ActionFacts::DealerOpeningDiscard { .. } => "dealer_opening_dahai"@,
        ActionFacts::Kan { kind, .. } => match kind {
            KanKind::Ankan => "ankan"@,
            KanKind::Kakan => "kakan"@,
            KanKind::Daiminkan => "daiminkan"@,
        },
        ActionFacts::Nukidora => "nukidora"@,
        ActionFacts::Tsumo { .. } => "tsumo"@,
        ActionFacts::DealerOpeningTsumo => "tsumo"@,
        ActionFacts::Kyushukyuhai => "kyushukyuhai"@,
        ActionFacts::PassAll { .. } => "pass_all"@,
        ActionFacts::Pon { .. } => "pon"@,
        ActionFacts::Chi { .. } => "chi"@,
        ActionFacts::Ron { .. } => "ron"@,
    }
}

pub open spec fn tile_names(tiles: Seq<Tile>) -> Seq<char>
    decreases tiles.len(),
{
    if tiles.len() == 0 {
        Seq::empty()
    } else if tiles.len() == 1 {
        tiles[0].spec_name()
    } else {
        tile_names(tiles.drop_last()) + ", "@ + tiles.last().spec_name()
    }
}

pub open spec fn truth(b: bool) -> Seq<char> {
    if b { "true"@ } else { "false"@ }
}

pub open spec fn kan_name(k: KanKind) -> Seq<char> {
    match k {
        KanKind::Ankan => "Ankan"@,
        KanKind::Kakan => "Kakan"@,
        KanKind::Daiminkan => "Daiminkan"@,
    }
}

/// An action written out for people.
pub open spec fn action_text(a: ActionFacts) -> Seq<char> {
    match a {
        ActionFacts::Discard { pai, tsumogiri, riichi } => "Discard { pai: "@ + pai.spec_name() + ", tsumogiri: "@ + truth(
            tsumogiri,
        ) + ", riichi: "@ + truth(riichi) + " }"@,
        ActionFacts::DealerOpeningDiscard { pai, riichi } => "DealerOpeningDiscard { pai: "@ + pai.spec_name() + ", riichi: "@
            + truth(riichi) + " }"@,
        ActionFacts::Kan { pai, kind, consumed } => "Kan { pai: "@ + pai.spec_name() + ", kind: "@ + kan_name(kind)
            + ", consumed: ["@ + tile_names(consumed) + "] }"@,
        ActionFacts::Nukidora => "Nukidora"@,
        ActionFacts::Tsumo { pai } => "Tsumo { pai: "@ + pai.spec_name() + " }"@,
        ActionFacts::DealerOpeningTsumo => "DealerOpeningTsumo"@,
        ActionFacts::Kyushukyuhai => "Kyushukyuhai"@,
        ActionFacts::PassAll { declines } => "PassAll { declines: ResponseOpportunities { ron: "@ + truth(declines.ron)
            + ", call: "@ + truth(declines.call) + " } }"@,
        ActionFacts::Pon { pai, consumed } => "Pon { pai: "@ + pai.spec_name() + ", consumed: ["@ + tile_names(consumed)
            + "] }"@,
        ActionFacts::Chi { pai, consumed } => "Chi { pai: "@ + pai.spec_name() + ", consumed: ["@ + tile_names(consumed)
            + "] }"@,
        ActionFacts::Ron { pai, target } => "Ron { pai: "@ + pai.spec_name() + ", target: "@ + dec(target as nat) + " }"@,
    }
}

fn truth_str(b: bool) -> (r: &'static str)
    ensures
        r@ == truth(b),
{
    if b {
        "true"
    } else {
        "false"
    }
}

fn names_of(tiles: &[Tile]) -> (r: String)
    ensures
        r@ == tile_names(tiles@),
{
    let mut out = String::new();
    let mut i: usize = 0;
    assert(tiles@.take(0) =~= Seq::empty());
    while i < tiles.len()
        invariant
            i <= tiles@.len(),
            out@ == tile_names(tiles@.take(i as int)),
        decreases tiles@.len() - i,
    {
        let ghost before = out@;
        assert(tiles@.take(i + 1).drop_last() =~= tiles@.take(i as int));
        assert(tiles@.take(i + 1).last() == tiles@[i as int]);
        if i > 0 {
            out.append(", ");
        }
        out.append(tiles[i].as_str());
        if i == 0 {
            assert(out@ =~= tiles@[0].spec_name());
        }
        i = i + 1;
    }
    assert(tiles@.take(i as int) =~= tiles@);
    out
}

fn same_tiles(a: &[Tile], b: &[Tile]) -> (r: bool)
    ensures
        r == (a@ == b@),
{
    if a.len() != b.len() {
        return false;
    }
    let mut i: usize = 0;
    while i < a.len()
        invariant
            i <= a@.len(),
            a@.len() == b@.len(),
            forall|j: int| 0 <= j < i ==> a@[j] == b@[j],
        decreases a@.len() - i,
    {
        if a[i] != b[i] {
            return false;
        }
        i = i + 1;
    }
    assert(a@ =~= b@);
    true
}

impl LegalAction {
    pub fn wire_type(&self) -> (r: &'static str)
        ensures
            r@ == wire_type(self@),
    {
        match self {
            LegalAction::Discard { .. } => "dahai",
            LegalAction::DealerOpeningDiscard { .. } => "dealer_opening_dahai",
            LegalAction::Kan { kind, .. } => match kind {
                KanKind::Ankan => "ankan",
                KanKind::Kakan => "kakan",
                KanKind::Daiminkan => "daiminkan",
            },
            LegalAction::Nukidora => "nukidora",
            LegalAction::Tsumo { .. } => "tsumo",
            LegalAction::DealerOpeningTsumo => "tsumo",
            LegalAction::Kyushukyuhai => "kyushukyuhai",
            LegalAction::PassAll { .. } => "pass_all",
            LegalAction::Pon { .. } => "pon",
            LegalAction::Chi { .. } => "chi",
            LegalAction::Ron { .. } => "ron",
        }
    }

    /// Whether two actions say the same.
    pub fn same_as(&self, other: &LegalAction) -> (r: bool)
        ensures
            r == (self@ == other@),
    {
        match (self, other) {
            (
                LegalAction::Discard { pai, tsumogiri, riichi },
                LegalAction::Discard { pai: p, tsumogiri: t, riichi: r },
            ) => *pai == *p && *tsumogiri == *t && *riichi == *r,
            (
                LegalAction::DealerOpeningDiscard { pai, riichi },
                LegalAction::DealerOpeningDiscard { pai: p, riichi: r },
            ) => *pai == *p && *riichi == *r,
            (LegalAction::Kan { pai, kind, consumed }, LegalAction::Kan { pai: p, kind: k, consumed: c }) => *pai == *p
                && *kind == *k && same_tiles(consumed.as_slice(), c.as_slice()),
            (LegalAction::Nukidora, LegalAction::Nukidora) => true,
            (LegalAction::Tsumo { pai }, LegalAction::Tsumo { pai: p }) => *pai == *p,
            (LegalAction::DealerOpeningTsumo, LegalAction::DealerOpeningTsumo) => true,
            (LegalAction::Kyushukyuhai, LegalAction::Kyushukyuhai) => true,
            (LegalAction::PassAll { declines }, LegalAction::PassAll { declines: d }) => *declines == *d,
            (LegalAction::Pon { pai, consumed }, LegalAction::Pon { pai: p, consumed: c }) => *pai == *p && same_tiles(
                consumed.as_slice(),
                c.as_slice(),
            ),
            (LegalAction::Chi { pai, consumed }, LegalAction::Chi { pai: p, consumed: c }) => *pai == *p && same_tiles(
                consumed.as_slice(),
                c.as_slice(),
            ),
            (LegalAction::Ron { pai, target }, LegalAction::Ron { pai: p, target: t }) => *pai == *p && *target == *t,
            _ => false,
        }
    }

    /// The action written out for people.
    pub fn describe(&self) -> (r: String)
        ensures
            r@ == action_text(self@),
    {
        match self {
            LegalAction::Discard { pai, tsumogiri, riichi } => {
                let mut s = owned("Discard { pai: ");
                s.append(pai.as_str());
                s.append(", tsumogiri: ");
                s.append(truth_str(*tsumogiri));
                s.append(", riichi: ");
                s.append(truth_str(*riichi));
                s.append(" }");
                s
            },
            LegalAction::DealerOpeningDiscard { pai, riichi } => {
                let mut s = owned("DealerOpeningDiscard { pai: ");
                s.append(pai.as_str());
                s.append(", riichi: ");
                s.append(truth_str(*riichi));
                s.append(" }");
                s
            },
            LegalAction::Kan { pai, kind, consumed } => {
                let mut s = owned("Kan { pai: ");
                s.append(pai.as_str());
                s.append(", kind: ");
                s.append(
                    match kind {
                        KanKind::Ankan => "Ankan",
                        KanKind::Kakan => "Kakan",
                        KanKind::Daiminkan => "Daiminkan",
                    },
                );
                s.append(", consumed: [");
                s.append(names_of(consumed.as_slice()).as_str());
                s.append("] }");
                s
            },
            LegalAction::Nukidora => owned("Nukidora"),
            LegalAction::Tsumo { pai } => {
                let mut s = owned("Tsumo { pai: ");
                s.append(pai.as_str());
                s.append(" }");
                s
            },
            LegalAction::DealerOpeningTsumo => owned("DealerOpeningTsumo"),
            LegalAction::Kyushukyuhai => owned("Kyushukyuhai"),
            LegalAction::PassAll { declines } => {
                let mut s = owned("PassAll { declines: ResponseOpportunities { ron: ");
                s.append(truth_str(declines.ron));
                s.append(", call: ");
                s.append(truth_str(declines.call));
                s.append(" } }");
                s
            },
            LegalAction::Pon { pai, consumed } => {
                let mut s = owned("Pon { pai: ");
                s.append(pai.as_str());
                s.append(", consumed: [");
                s.append(names_of(consumed.as_slice()).as_str());
                s.append("] }");
                s
            },
            LegalAction::Chi { pai, consumed } => {
                let mut s = owned("Chi { pai: ");
                s.append(pai.as_str());
                s.append(", consumed: [");
                s.append(names_of(consumed.as_slice()).as_str());
                s.append("] }");
                s
            },
            LegalAction::Ron { pai, target } => {
                let mut s = owned("Ron { pai: ");
                s.append(pai.as_str());
                s.append(", target: ");
                s.append(dec_usize(*target as usize).as_str());
                s.append(" }");
                s
            },
        }
    }
}

/// What went wrong with a decision.
#[derive(Debug, Clone, Copy, PartialEq, Eq, Structural)]
pub enum InferenceErrorKind {
    /// The engine, or the call itself, broke the protocol.
    Protocol,
    /// The engine cannot be reached.
    EngineUnavailable,
    /// The engine could not be reached before anything was sent, so trying again is safe.
    PreSendUnavailable,
    Timeout,
    /// The reply belongs to another request.
    StaleDecision,
    /// The engine holds another state than the table.
    StateSyncRequired,
    /// The action is not among the legal ones.
    InvalidAction,
    Internal,
}

#[derive(Debug)]
pub struct InferenceError {
    pub kind: InferenceErrorKind,
    pub detail: String,
}

/// What an error says.
pub ghost struct Fault {
    pub kind: InferenceErrorKind,
    pub detail: Seq<char>,
}

impl View for InferenceError {
    type V = Fault;

    open spec fn view(&self) -> Fault {
        Fault { kind: self.kind, detail: self.detail@ }
    }
}

pub fn inference_error(kind: InferenceErrorKind, detail: &str) -> (r: InferenceError)
    ensures
        r@ == (Fault { kind, detail: detail@ }),
{
    InferenceError { kind, detail: owned(detail) }
}

/// A fault.
pub open spec fn fault(kind: InferenceErrorKind, detail: Seq<char>) -> Fault {
    Fault { kind, detail }
}

/// A fault of the protocol.
pub open spec fn protocol_fault(detail: Seq<char>) -> Fault {
    Fault { kind: InferenceErrorKind::Protocol, detail }
}

/// An engine's decision: one of the legal actions, with what it says about it, or none.
#[derive(Debug)]
pub enum InferenceDecision {
    Select { index: usize, meta: Option<String> },
    Abstain,
}

/// What a decision says.
#[allow(inconsistent_fields)]
pub ghost enum DecisionFacts {
    Select { index: usize, meta: Option<Seq<char>> },
    Abstain,
}

impl View for InferenceDecision {
    type V = DecisionFacts;

    open spec fn view(&self) -> DecisionFacts {
        match *self {
            InferenceDecision::Select { index, meta } => DecisionFacts::Select { index, meta: string_view(meta) },
            InferenceDecision::Abstain => DecisionFacts::Abstain,
        }
    }
}

/// A string that may be there.
pub open spec fn string_view(s: Option<String>) -> Option<Seq<char>> {
    match s {
        Some(t) => Some(t@),
        None => None,
    }
}

/// The outcome of a decision, as facts.
pub open spec fn decision_view(r: Result<InferenceDecision, InferenceError>) -> Result<DecisionFacts, Fault> {
    match r {
        Ok(d) => Ok(d@),
        Err(e) => Err(e@),
    }
}

/// How an engine declares riichi.
#[derive(Debug, Clone, Copy, PartialEq, Eq, Structural)]
pub enum RiichiStyle {
    /// The riichi discards are among the legal actions.
    ParallelDiscard,
    /// The engine declares first and then names the discard.
    DeclareThenDiscard,
}

/// What an engine says it can do.
#[derive(Debug)]
pub struct EngineCaps {
    pub caps_version: u32,
    pub protocol_versions: Vec<String>,
    pub rule_lines: Vec<RuleLine>,
    pub riichi_style: RiichiStyle,
    pub supports_incremental: bool,
    pub returns_ranked_actions: bool,
}

/// The capabilities, as facts.
pub ghost struct CapsFacts {
    pub caps_version: u32,
    pub protocol_versions: Seq<Seq<char>>,
    pub rule_lines: Seq<RuleLine>,
    pub riichi_style: RiichiStyle,
    pub supports_incremental: bool,
    pub returns_ranked_actions: bool,
}

pub open spec fn strings_view(v: Seq<String>) -> Seq<Seq<char>> {
    Seq::new(v.len(), |i: int| v[i]@)
}

impl View for EngineCaps {
    type V = CapsFacts;

    open spec fn view(&self) -> CapsFacts {
        CapsFacts {
            caps_version: self.caps_version,
            protocol_versions: strings_view(self.protocol_versions@),
            rule_lines: self.rule_lines@,
            riichi_style: self.riichi_style,
            supports_incremental: self.supports_incremental,
            returns_ranked_actions: self.returns_ranked_actions,
        }
    }
}

} // verus!
