//! Trying an engine: what it is asked, and what its answers have to be.

use vstd::prelude::*;
use crate::event::event3p::Event3p;
use crate::event::event4p::Event4p;
use crate::inference::contract::{
    actions_view, ActionFacts, DecisionFacts, InferenceDecision, KanKind, LegalAction,
};
use crate::inference::registry::names::text_fault;
use crate::inference::registry::scan::{SmokeSummary, SMOKE_DECISIONS};
use crate::mahjong::meld::Meld;
use crate::mahjong::rules::RiichiRuleProfile;
use crate::mahjong::tile::Tile;
use crate::maintainer::action::TurnAction;
use crate::maintainer::legal::{of_kind, turn_actions};
use crate::maintainer::mirror::new_core;
use crate::maintainer::mirror_rules::{core_view, is_sound, pon_at, MirrorFacts, Step};
use crate::maintainer::ordinary::{is_view_in_play, view_in_play};
use crate::maintainer::product::{
    class_3p, class_4p, counted, gate, known_3p, known_4p, step_3p, step_4p, Mirror3p, Mirror4p, MirrorCenter,
};
use crate::maintainer::view::{SeatView, TableFacts};
use crate::text::{dec, dec_usize, join2, owned};

verus! {

// Turn actions as legal actions.

pub open spec fn at_most_four(s: Seq<Tile>) -> Seq<Tile> {
    if s.len() > 4 { s.take(4) } else { s }
}

/// The tiles of the pon that a kan is added to.
pub open spec fn pon_tiles(melds: Seq<Meld>, k: usize) -> Seq<Tile> {
    let at = pon_at(melds, k);
    if at < melds.len() {
        match melds[at] {
            Meld::Pon { called, consumed, .. } => seq![consumed@[0], consumed@[1], called],
            _ => Seq::empty(),
        }
    } else {
        Seq::empty()
    }
}

/// A turn action of a view, as an engine is asked about it.
pub open spec fn legal_of(a: TurnAction, v: TableFacts) -> ActionFacts {
    match a {
        TurnAction::DealerOpeningDiscard { tile } => ActionFacts::DealerOpeningDiscard { pai: tile, riichi: false },
        TurnAction::DealerOpeningRiichi { tile } => ActionFacts::DealerOpeningDiscard { pai: tile, riichi: true },
        TurnAction::Discard { tile, tsumogiri } => ActionFacts::Discard { pai: tile, tsumogiri, riichi: false },
        TurnAction::Riichi { tile, tsumogiri } => ActionFacts::Discard { pai: tile, tsumogiri, riichi: true },
        TurnAction::Ankan { tile } => ActionFacts::Kan {
            pai: tile,
            kind: KanKind::Ankan,
            consumed: at_most_four(of_kind(v.me.hand, tile.kind() as int)),
        },
        TurnAction::Kakan { tile } => ActionFacts::Kan {
            pai: tile,
            kind: KanKind::Kakan,
            consumed: pon_tiles(v.me.melds, tile.kind()),
        },
        TurnAction::Tsumo => if v.me.dealer_opening {
            ActionFacts::DealerOpeningTsumo
        } else {
            ActionFacts::Tsumo { pai: v.me.hand.last() }
        },
        TurnAction::Nukidora => ActionFacts::Nukidora,
        TurnAction::KyuushuKyuuhai => ActionFacts::Kyushukyuhai,
    }
}

pub open spec fn legals_of(actions: Seq<TurnAction>, v: TableFacts) -> Seq<ActionFacts> {
    Seq::new(actions.len(), |i: int| legal_of(actions[i], v))
}

fn four_of_kind(hand: &Vec<Tile>, k: usize) -> (r: Vec<Tile>)
    ensures
        r@ == at_most_four(of_kind(hand@, k as int)),
{
    let mut out: Vec<Tile> = Vec::new();
    let mut i: usize = 0;
    assert(out@ =~= of_kind(hand@.take(0), k as int));
    while i < hand.len() && out.len() < 4
        invariant
            i <= hand@.len(),
            out@.len() <= 4,
            out@ == of_kind(hand@.take(i as int), k as int),
        decreases hand@.len() - i,
    {
        assert(hand@.take(i + 1).drop_last() =~= hand@.take(i as int));
        assert(hand@.take(i + 1).last() == hand@[i as int]);
        if hand[i].kind() == k {
            out.push(hand[i]);
        }
        i = i + 1;
    }
    proof {
        lemma_of_kind_grows(hand@, i as int, k as int);
        assert(hand@.take(hand@.len() as int) =~= hand@);
    }
    out
}

proof fn lemma_of_kind_grows(hand: Seq<Tile>, n: int, k: int)
    requires
        0 <= n <= hand.len(),
    ensures
        of_kind(hand.take(n), k).len() <= of_kind(hand, k).len(),
        of_kind(hand, k).take(of_kind(hand.take(n), k).len() as int) == of_kind(hand.take(n), k),
    decreases hand.len() - n,
{
    let part = of_kind(hand.take(n), k);
    if n == hand.len() {
        assert(hand.take(n) =~= hand);
        assert(part.take(part.len() as int) =~= part);
    } else {
        lemma_of_kind_grows(hand, n + 1, k);
        assert(hand.take(n + 1).drop_last() =~= hand.take(n));
        let next = of_kind(hand.take(n + 1), k);
        assert(of_kind(hand, k).take(part.len() as int) =~= of_kind(hand, k).take(next.len() as int).take(part.len() as int));
        assert(next.take(part.len() as int) =~= part);
    }
}

fn kakan_consumed(melds: &Vec<Meld>, k: usize) -> (r: Vec<Tile>)
    ensures
        r@ == pon_tiles(melds@, k),
{
    let mut i: usize = 0;
    assert(melds@.skip(0) =~= melds@);
    while i < melds.len()
        invariant
            i <= melds@.len(),
            pon_at(melds@, k) == i + pon_at(melds@.skip(i as int), k),
        decreases melds@.len() - i,
    {
        assert(melds@.skip(i as int)[0] == melds@[i as int]);
        assert(melds@.skip(i as int).drop_first() =~= melds@.skip(i + 1));
        match &melds[i] {
            Meld::Pon { tile, called, consumed, .. } => {
                if tile.kind() == k {
                    let r = vec![consumed[0], consumed[1], *called];
                    assert(r@ =~= pon_tiles(melds@, k));
                    return r;
                }
            },
            _ => {},
        }
        i = i + 1;
    }
    let r: Vec<Tile> = Vec::new();
    assert(r@ =~= pon_tiles(melds@, k));
    r
}

fn turn_action_to_legal(action: &TurnAction, view: &SeatView) -> (r: LegalAction)
    requires
        *action is Tsumo && !view@.me.dealer_opening ==> view@.me.hand.len() > 0,
    ensures
        r@ == legal_of(*action, view@),
{
    match action {
        TurnAction::DealerOpeningDiscard { tile } => LegalAction::DealerOpeningDiscard { pai: *tile, riichi: false },
        TurnAction::DealerOpeningRiichi { tile } => LegalAction::DealerOpeningDiscard { pai: *tile, riichi: true },
        TurnAction::Discard { tile, tsumogiri } => LegalAction::Discard { pai: *tile, tsumogiri: *tsumogiri, riichi: false },
        TurnAction::Riichi { tile, tsumogiri } => LegalAction::Discard { pai: *tile, tsumogiri: *tsumogiri, riichi: true },
        TurnAction::Ankan { tile } => LegalAction::Kan {
            pai: *tile,
            kind: KanKind::Ankan,
            consumed: four_of_kind(&view.me.hand, tile.kind()),
        },
        TurnAction::Kakan { tile } => LegalAction::Kan {
            pai: *tile,
            kind: KanKind::Kakan,
            consumed: kakan_consumed(&view.me.melds, tile.kind()),
        },
        TurnAction::Tsumo => {
            if view.me.dealer_opening {
                LegalAction::DealerOpeningTsumo
            } else {
                LegalAction::Tsumo { pai: view.me.hand[view.me.hand.len() - 1] }
            }
        },
        TurnAction::Nukidora => LegalAction::Nukidora,
        TurnAction::KyuushuKyuuhai => LegalAction::Kyushukyuhai,
    }
}

/// A turn action of a four-player view, as an engine is asked about it.
pub fn turn_action_to_legal_4p(action: &TurnAction, view: &SeatView) -> (r: LegalAction)
    requires
        !(*action is Nukidora),
        *action is Tsumo && !view@.me.dealer_opening ==> view@.me.hand.len() > 0,
    ensures
        r@ == legal_of(*action, view@),
{
    turn_action_to_legal(action, view)
}

/// A turn action of a three-player view, as an engine is asked about it.
pub fn turn_action_to_legal_3p(action: &TurnAction, view: &SeatView) -> (r: LegalAction)
    requires
        *action is Tsumo && !view@.me.dealer_opening ==> view@.me.hand.len() > 0,
    ensures
        r@ == legal_of(*action, view@),
{
    turn_action_to_legal(action, view)
}

/// The turn actions of a view, as an engine is asked about them.
pub fn turn_actions_to_legal(actions: &Vec<TurnAction>, view: &SeatView) -> (r: Vec<LegalAction>)
    requires
        view@.me.hand.len() > 0,
    ensures
        actions_view(r@) == legals_of(actions@, view@),
{
    let mut out: Vec<LegalAction> = Vec::new();
    let mut i: usize = 0;
    while i < actions.len()
        invariant
            i <= actions@.len(),
            out@.len() == i,
            view@.me.hand.len() > 0,
            forall|j: int| 0 <= j < i ==> (#[trigger] out@[j])@ == legal_of(actions@[j], view@),
        decreases actions@.len() - i,
    {
        out.push(turn_action_to_legal(&actions[i], view));
        i = i + 1;
    }
    assert(actions_view(out@) =~= legals_of(actions@, view@));
    out
}

/// A plain discard is among the actions.
pub open spec fn fallback_found(actions: Seq<TurnAction>) -> bool {
    exists|i: int| 0 <= i < actions.len() && (#[trigger] actions[i]).is_plain_discard()
}

/// What the seats without an engine do: the first plain discard, or the first action.
pub fn fallback_turn_index(actions: &[TurnAction]) -> (r: usize)
    ensures
        fallback_found(actions@) ==> r < actions@.len() && actions@[r as int].is_plain_discard() && forall|j: int|
            0 <= j < r ==> !(#[trigger] actions@[j]).is_plain_discard(),
        !fallback_found(actions@) ==> r == 0,
{
    let mut i: usize = 0;
    while i < actions.len()
        invariant
            i <= actions@.len(),
            forall|j: int| 0 <= j < i ==> !(#[trigger] actions@[j]).is_plain_discard(),
        decreases actions@.len() - i,
    {
        if actions[i].is_plain_discard() {
            return i;
        }
        i = i + 1;
    }
    0
}

// Answers.

/// The place that an engine selects when it is tried: it has to decide, and in range.
pub open spec fn tried_index(d: DecisionFacts, legal_len: nat) -> Result<usize, Seq<char>> {
    match d {
        DecisionFacts::Select { index, .. } => if index < legal_len {
            Ok(index)
        } else {
            Err("engine selected out-of-range legal index "@ + dec(index as nat))
        },
        DecisionFacts::Abstain => Err("engine abstained during certification smoke"@),
    }
}

/// The place that an engine selects when it is tried.
pub fn select_index(decision: &InferenceDecision, legal_len: usize) -> (r: Result<usize, String>)
    ensures
        match r {
            Ok(i) => tried_index(decision@, legal_len as nat) == Ok::<usize, Seq<char>>(i),
            Err(e) => tried_index(decision@, legal_len as nat) == Err::<usize, Seq<char>>(e@),
        },
{
    match decision {
        InferenceDecision::Select { index, .. } => {
            if *index < legal_len {
                Ok(*index)
            } else {
                Err(join2("engine selected out-of-range legal index ", dec_usize(*index).as_str()))
            }
        },
        InferenceDecision::Abstain => Err(owned("engine abstained during certification smoke")),
    }
}

/// Checks an answer about the dealer's opening, on which an old engine may abstain.
pub fn select_opening_index(decision: &InferenceDecision, legal_len: usize, allow_abstain: bool) -> (r: Result<(), String>)
    ensures
        text_fault(r) == if allow_abstain && decision@ is Abstain {
            None
        } else {
            match tried_index(decision@, legal_len as nat) {
                Ok(_) => None,
                Err(e) => Some(e),
            }
        },
{
    if allow_abstain && matches!(decision, InferenceDecision::Abstain) {
        return Ok(());
    }
    match select_index(decision, legal_len) {
        Ok(_) => Ok(()),
        Err(e) => Err(e),
    }
}

// The run.

/// Most steps of a run.
pub const SMOKE_STEPS: usize = 5000;

/// A trial of an engine at a table: it plays one seat until it has decided often enough.
#[derive(Debug, Clone, Copy, PartialEq, Eq, Structural)]
pub struct SmokeRun {
    pub target: usize,
    pub decisions: usize,
    pub steps: usize,
    pub max_infer_ms: u64,
    pub needs_draw: bool,
}

impl SmokeRun {
    pub open spec fn is_sound(self) -> bool {
        self.decisions <= self.target && self.steps <= SMOKE_STEPS && self.target <= 1000
    }

    /// A run after the dealer's opening was answered.
    pub fn new(opening_ms: u64) -> (r: Self)
        ensures
            r.is_sound(),
            r == (SmokeRun {
                target: SMOKE_DECISIONS,
                decisions: 0,
                steps: 0,
                max_infer_ms: opening_ms,
                needs_draw: true,
            }),
    {
        SmokeRun { target: SMOKE_DECISIONS, decisions: 0, steps: 0, max_infer_ms: opening_ms, needs_draw: true }
    }

    /// The engine has decided often enough.
    pub fn is_done(&self) -> (r: bool)
        ensures
            r == (self.decisions >= self.target),
    {
        self.decisions >= self.target
    }

    /// The engine has decided once more.
    pub fn on_decision(&mut self, elapsed_ms: u64)
        requires
            old(self).is_sound(),
            old(self).decisions < old(self).target,
        ensures
            final(self).is_sound(),
            *final(self) == (SmokeRun {
                decisions: (old(self).decisions + 1) as usize,
                max_infer_ms: if elapsed_ms > old(self).max_infer_ms { elapsed_ms } else { old(self).max_infer_ms },
                ..*old(self)
            }),
    {
        if elapsed_ms > self.max_infer_ms {
            self.max_infer_ms = elapsed_ms;
        }
        self.decisions = self.decisions + 1;
    }

    /// The hand is over: another starts, with a seed of its own.
    pub fn on_hand_over(&mut self, base_seed: u64) -> (seed: u64)
        requires
            old(self).is_sound(),
            base_seed + 1000 <= u64::MAX,
        ensures
            final(self).is_sound(),
            *final(self) == (SmokeRun { needs_draw: true, ..*old(self) }),
            seed == base_seed + old(self).decisions,
    {
        self.needs_draw = true;
        base_seed + self.decisions as u64
    }

    /// An action was carried out: after a discard the turn passes on.
    pub fn on_step(&mut self, discarded: bool) -> (r: Result<(), ()>)
        requires
            old(self).is_sound(),
        ensures
            r is Ok == (old(self).steps < SMOKE_STEPS),
            r is Ok ==> final(self).is_sound(),
            *final(self) == (SmokeRun {
                needs_draw: discarded,
                steps: (old(self).steps + 1) as usize,
                ..*old(self)
            }),
    {
        self.needs_draw = discarded;
        self.steps = self.steps + 1;
        if self.steps > SMOKE_STEPS {
            Err(())
        } else {
            Ok(())
        }
    }

    pub fn summary(&self) -> (r: SmokeSummary)
        ensures
            r == (SmokeSummary {
                decisions: self.decisions,
                all_legal: true,
                dealer_opening_checked: true,
                max_infer_ms: self.max_infer_ms,
            }),
    {
        SmokeSummary {
            decisions: self.decisions,
            all_legal: true,
            dealer_opening_checked: true,
            max_infer_ms: self.max_infer_ms,
        }
    }
}

// The dealer's opening.

/// The opening of a dealer is among turn actions.
pub open spec fn offers_opening(actions: Seq<TurnAction>) -> bool {
    exists|i: int| 0 <= i < actions.len() && (#[trigger] actions[i]) is DealerOpeningDiscard
}

fn has_opening(actions: &Vec<TurnAction>) -> (r: bool)
    ensures
        r == offers_opening(actions@),
{
    let mut i: usize = 0;
    while i < actions.len()
        invariant
            i <= actions@.len(),
            forall|j: int| 0 <= j < i ==> !((#[trigger] actions@[j]) is DealerOpeningDiscard),
        decreases actions@.len() - i,
    {
        if matches!(actions[i], TurnAction::DealerOpeningDiscard { .. }) {
            return true;
        }
        i = i + 1;
    }
    false
}

/// A four-player table at which the dealer opens: what an engine is asked about it.
pub struct OpeningCase4p {
    pub events: Vec<Event4p>,
    pub legal_actions: Vec<LegalAction>,
    pub wall_remaining: u32,
}

pub open spec fn opening_hand_4p() -> [Tile; 13] {
    [
        Tile::of(0),
        Tile::of(1),
        Tile::of(2),
        Tile::of(3),
        Tile::of(4),
        Tile::of(5),
        Tile::of(6),
        Tile::of(7),
        Tile::of(8),
        Tile::of(9),
        Tile::of(10),
        Tile::of(11),
        Tile::of(12),
    ]
}

pub open spec fn opening_hands_4p() -> [[Tile; 13]; 4] {
    let hidden = [Tile::unknown(), Tile::unknown(), Tile::unknown(), Tile::unknown(), Tile::unknown(), Tile::unknown(), Tile::unknown(), Tile::unknown(), Tile::unknown(), Tile::unknown(), Tile::unknown(), Tile::unknown(), Tile::unknown()];
    [opening_hand_4p(), hidden, hidden, hidden]
}

pub open spec fn opening_scores_4p() -> [i32; 4] {
    [25000, 25000, 25000, 25000]
}

/// The start of the hand.
pub open spec fn opening_start_4p() -> Event4p {
    Event4p::StartKyoku {
        bakaze: Tile::of(27),
        dora_marker: Tile::of(30),
        kyoku: 1,
        honba: 0,
        kyotaku: 0,
        oya: 0,
        scores: opening_scores_4p(),
        tehais: opening_hands_4p(),
    }
}

/// The dealer's opening.
pub open spec fn opening_tile_event_4p() -> Event4p {
    Event4p::DealerOpening { actor: 0, pai: Tile::of(26) }
}

/// What a mirror makes of an event that does not repeat another.
pub open spec fn followed_4p(c: Step, event: Event4p) -> Step {
    match c {
        Err(e) => Err(e),
        Ok(m) => match gate(m, false, class_4p(event)) {
            Some((_, detail)) => Err(detail),
            None => match step_4p(m, event) {
                Ok(d) => Ok(counted(d)),
                Err(e) => Err(e),
            },
        },
    }
}

/// The mirror of the dealer after the opening, given the game's start.
pub open spec fn opening_mirror_4p(start: Event4p) -> Step {
    followed_4p(
        followed_4p(followed_4p(Ok(new_core(4, 0, RiichiRuleProfile::tenhou())), start), opening_start_4p()),
        opening_tile_event_4p(),
    )
}

/// The start of a game between players a, b, c and d, with no seed.
pub open spec fn is_opening_game_4p(e: Event4p) -> bool {
    match e {
        Event4p::StartGame { names, seed } => {
            &&& names@[0]@ == "a"@
            &&& names@[1]@ == "b"@
            &&& names@[2]@ == "c"@
            &&& names@[3]@ == "d"@
            &&& seed is None
        },
        _ => false,
    }
}

fn game_start_4p() -> (r: Event4p)
    ensures
        is_opening_game_4p(r),
{
    Event4p::StartGame { names: [owned("a"), owned("b"), owned("c"), owned("d")], seed: None }
}

fn hand_start_4p() -> (r: Event4p)
    ensures
        r == opening_start_4p(),
{
    let u = Tile::unknown();
    let unknown = [u, u, u, u, u, u, u, u, u, u, u, u, u];
    let hand = [
        Tile::from_id_unchecked(0),
        Tile::from_id_unchecked(1),
        Tile::from_id_unchecked(2),
        Tile::from_id_unchecked(3),
        Tile::from_id_unchecked(4),
        Tile::from_id_unchecked(5),
        Tile::from_id_unchecked(6),
        Tile::from_id_unchecked(7),
        Tile::from_id_unchecked(8),
        Tile::from_id_unchecked(9),
        Tile::from_id_unchecked(10),
        Tile::from_id_unchecked(11),
        Tile::from_id_unchecked(12),
    ];
    assert(hand@ =~= opening_hand_4p()@);
    assert(hand =~= opening_hand_4p());
    let scores = [25000i32, 25000i32, 25000i32, 25000i32];
    let tehais = [hand, unknown, unknown, unknown];
    proof {
        let hidden = [Tile::unknown(), Tile::unknown(), Tile::unknown(), Tile::unknown(), Tile::unknown(), Tile::unknown(), Tile::unknown(), Tile::unknown(), Tile::unknown(), Tile::unknown(), Tile::unknown(), Tile::unknown(), Tile::unknown()];
        assert(unknown@ =~= hidden@);
        assert(unknown =~= hidden);
        assert(scores@ =~= opening_scores_4p()@);
        assert(scores =~= opening_scores_4p());
        assert(tehais@ =~= opening_hands_4p()@);
        assert(tehais =~= opening_hands_4p());
    }
    Event4p::StartKyoku {
        bakaze: Tile::from_id_unchecked(27),
        dora_marker: Tile::from_id_unchecked(30),
        kyoku: 1,
        honba: 0,
        kyotaku: 0,
        oya: 0,
        scores,
        tehais,
    }
}

fn opening_event_4p() -> (r: Event4p)
    ensures
        r == opening_tile_event_4p(),
{
    Event4p::DealerOpening { actor: 0, pai: Tile::from_id_unchecked(26) }
}

/// What an engine is asked about the dealer's opening, given the mirror's view of it.
pub open spec fn opening_asks_4p(v: TableFacts) -> bool {
    is_view_in_play(v) && v.me.hand.len() > 0 && offers_opening(turn_actions(v))
}

/// Why an engine cannot be asked about the dealer's opening.
pub open spec fn opening_fault_4p(mirror: Step) -> Option<Seq<char>> {
    match mirror {
        Err(e) => Some("4p dealer-opening smoke mirror failed: "@ + e),
        Ok(c) => if opening_asks_4p(core_view(c, 0)) {
            None
        } else {
            Some("4p dealer-opening smoke produced no neutral discard"@)
        },
    }
}

/// Sets up a dealer's opening and lists what an engine is asked about it.
#[verifier::rlimit(40)]
pub fn opening_case_4p() -> (r: Result<OpeningCase4p, String>)
    ensures
        match r {
            Ok(c) => {
                &&& c.events@.len() == 3
                &&& is_opening_game_4p(c.events@[0])
                &&& c.events@[1] == opening_start_4p()
                &&& c.events@[2] == opening_tile_event_4p()
                &&& opening_fault_4p(opening_mirror_4p(c.events@[0])) is None
                &&& actions_view(c.legal_actions@) == legals_of(
                    turn_actions(core_view(opening_mirror_4p(c.events@[0])->Ok_0, 0)),
                    core_view(opening_mirror_4p(c.events@[0])->Ok_0, 0),
                )
                &&& c.wall_remaining == core_view(opening_mirror_4p(c.events@[0])->Ok_0, 0).tiles_left
            },
            Err(e) => forall|start: Event4p|
                start is StartGame ==> opening_fault_4p(#[trigger] opening_mirror_4p(start)) == Some(e@),
        },
{
    let mut mirror = Mirror4p::new(0);
    proof { reveal(known_4p); }
    let start = game_start_4p();
    let ghost first = start;
    match mirror.feed(start) {
        Ok(_) => {},
        Err(e) => {
            let fault = join2("4p dealer-opening smoke mirror failed: ", e.as_str());
            proof { lemma_all_starts_4p(first, fault@); }
            return Err(fault);
        },
    }
    match mirror.feed(hand_start_4p()) {
        Ok(_) => {},
        Err(e) => {
            let fault = join2("4p dealer-opening smoke mirror failed: ", e.as_str());
            proof { lemma_all_starts_4p(first, fault@); }
            return Err(fault);
        },
    }
    match mirror.feed(opening_event_4p()) {
        Ok(_) => {},
        Err(e) => {
            let fault = join2("4p dealer-opening smoke mirror failed: ", e.as_str());
            proof { lemma_all_starts_4p(first, fault@); }
            return Err(fault);
        },
    }
    assert(opening_mirror_4p(first) == Ok::<MirrorFacts, Seq<char>>(mirror.facts()));
    let view = mirror.mirror_view(0);
    assert(view@ == core_view(mirror.facts(), 0));
    if !view_in_play(&view) || view.me.hand.len() == 0 {
        proof { lemma_all_starts_4p(first, "4p dealer-opening smoke produced no neutral discard"@); }
        return Err(owned("4p dealer-opening smoke produced no neutral discard"));
    }
    let actions = mirror.legal_turn(0);
    if !has_opening(&actions) {
        proof { lemma_all_starts_4p(first, "4p dealer-opening smoke produced no neutral discard"@); }
        return Err(owned("4p dealer-opening smoke produced no neutral discard"));
    }
    let legal_actions = turn_actions_to_legal(&actions, &view);
    let again = game_start_4p();
    proof { lemma_game_starts_alike_4p(first, again); }
    Ok(
        OpeningCase4p {
            events: vec![again, hand_start_4p(), opening_event_4p()],
            legal_actions,
            wall_remaining: view.tiles_left,
        },
    )
}

proof fn lemma_all_starts_4p(first: Event4p, fault: Seq<char>)
    requires
        first is StartGame,
        opening_fault_4p(opening_mirror_4p(first)) == Some(fault),
    ensures
        forall|start: Event4p|
            start is StartGame ==> opening_fault_4p(#[trigger] opening_mirror_4p(start)) == Some(fault),
{
    assert forall|start: Event4p| start is StartGame implies opening_fault_4p(#[trigger] opening_mirror_4p(start)) == Some(
        fault,
    ) by {
        lemma_game_starts_alike_4p(first, start);
    }
}

proof fn lemma_game_starts_alike_4p(a: Event4p, b: Event4p)
    requires
        a is StartGame,
        b is StartGame,
    ensures
        opening_mirror_4p(a) == opening_mirror_4p(b),
{
    reveal(step_4p);
}

/// A three-player table at which the dealer opens: what an engine is asked about it.
pub struct OpeningCase3p {
    pub events: Vec<Event3p>,
    pub legal_actions: Vec<LegalAction>,
    pub wall_remaining: u32,
}

pub open spec fn opening_hand_3p() -> [Tile; 13] {
    [
        Tile::of(0),
        Tile::of(8),
        Tile::of(9),
        Tile::of(10),
        Tile::of(11),
        Tile::of(12),
        Tile::of(13),
        Tile::of(14),
        Tile::of(15),
        Tile::of(16),
        Tile::of(17),
        Tile::of(27),
        Tile::of(28),
    ]
}

pub open spec fn opening_hands_3p() -> [[Tile; 13]; 3] {
    let hidden = [Tile::unknown(), Tile::unknown(), Tile::unknown(), Tile::unknown(), Tile::unknown(), Tile::unknown(), Tile::unknown(), Tile::unknown(), Tile::unknown(), Tile::unknown(), Tile::unknown(), Tile::unknown(), Tile::unknown()];
    [opening_hand_3p(), hidden, hidden]
}

pub open spec fn opening_scores_3p() -> [i32; 3] {
    [35000, 35000, 35000]
}

/// The start of the hand.
pub open spec fn opening_start_3p() -> Event3p {
    Event3p::StartKyoku {
        bakaze: Tile::of(27),
        dora_marker: Tile::of(29),
        kyoku: 1,
        honba: 0,
        kyotaku: 0,
        oya: 0,
        scores: opening_scores_3p(),
        tehais: opening_hands_3p(),
    }
}

/// The dealer's opening.
pub open spec fn opening_tile_event_3p() -> Event3p {
    Event3p::DealerOpening { actor: 0, pai: Tile::of(31) }
}

/// What a mirror makes of an event that does not repeat another.
pub open spec fn followed_3p(c: Step, event: Event3p) -> Step {
    match c {
        Err(e) => Err(e),
        Ok(m) => match gate(m, false, class_3p(event)) {
            Some((_, detail)) => Err(detail),
            None => match step_3p(m, event) {
                Ok(d) => Ok(counted(d)),
                Err(e) => Err(e),
            },
        },
    }
}

/// The mirror of the dealer after the opening, given the game's start.
pub open spec fn opening_mirror_3p(start: Event3p) -> Step {
    followed_3p(
        followed_3p(followed_3p(Ok(new_core(3, 0, RiichiRuleProfile::tenhou())), start), opening_start_3p()),
        opening_tile_event_3p(),
    )
}

/// The start of a game between players a, b and c, with no seed.
pub open spec fn is_opening_game_3p(e: Event3p) -> bool {
    match e {
        Event3p::StartGame { names, seed } => {
            &&& names@[0]@ == "a"@
            &&& names@[1]@ == "b"@
            &&& names@[2]@ == "c"@
            &&& seed is None
        },
        _ => false,
    }
}

fn game_start_3p() -> (r: Event3p)
    ensures
        is_opening_game_3p(r),
{
    Event3p::StartGame { names: [owned("a"), owned("b"), owned("c")], seed: None }
}

fn hand_start_3p() -> (r: Event3p)
    ensures
        r == opening_start_3p(),
{
    let u = Tile::unknown();
    let unknown = [u, u, u, u, u, u, u, u, u, u, u, u, u];
    let hand = [
        Tile::from_id_unchecked(0),
        Tile::from_id_unchecked(8),
        Tile::from_id_unchecked(9),
        Tile::from_id_unchecked(10),
        Tile::from_id_unchecked(11),
        Tile::from_id_unchecked(12),
        Tile::from_id_unchecked(13),
        Tile::from_id_unchecked(14),
        Tile::from_id_unchecked(15),
        Tile::from_id_unchecked(16),
        Tile::from_id_unchecked(17),
        Tile::from_id_unchecked(27),
        Tile::from_id_unchecked(28),
    ];
    assert(hand@ =~= opening_hand_3p()@);
    assert(hand =~= opening_hand_3p());
    let scores = [35000i32, 35000i32, 35000i32];
    let tehais = [hand, unknown, unknown];
    proof {
        let hidden = [Tile::unknown(), Tile::unknown(), Tile::unknown(), Tile::unknown(), Tile::unknown(), Tile::unknown(), Tile::unknown(), Tile::unknown(), Tile::unknown(), Tile::unknown(), Tile::unknown(), Tile::unknown(), Tile::unknown()];
        assert(unknown@ =~= hidden@);
        assert(unknown =~= hidden);
        assert(scores@ =~= opening_scores_3p()@);
        assert(scores =~= opening_scores_3p());
        assert(tehais@ =~= opening_hands_3p()@);
        assert(tehais =~= opening_hands_3p());
    }
    Event3p::StartKyoku {
        bakaze: Tile::from_id_unchecked(27),
        dora_marker: Tile::from_id_unchecked(29),
        kyoku: 1,
        honba: 0,
        kyotaku: 0,
        oya: 0,
        scores,
        tehais,
    }
}

fn opening_event_3p() -> (r: Event3p)
    ensures
        r == opening_tile_event_3p(),
{
    Event3p::DealerOpening { actor: 0, pai: Tile::from_id_unchecked(31) }
}

/// What an engine is asked about the dealer's opening, given the mirror's view of it.
pub open spec fn opening_asks_3p(v: TableFacts) -> bool {
    is_view_in_play(v) && v.me.hand.len() > 0 && offers_opening(turn_actions(v))
}

/// Why an engine cannot be asked about the dealer's opening.
pub open spec fn opening_fault_3p(mirror: Step) -> Option<Seq<char>> {
    match mirror {
        Err(e) => Some("3p dealer-opening smoke mirror failed: "@ + e),
        Ok(c) => if opening_asks_3p(core_view(c, 0)) {
            None
        } else {
            Some("3p dealer-opening smoke produced no neutral discard"@)
        },
    }
}

/// Sets up a dealer's opening and lists what an engine is asked about it.
#[verifier::rlimit(40)]
pub fn opening_case_3p() -> (r: Result<OpeningCase3p, String>)
    ensures
        match r {
            Ok(c) => {
                &&& c.events@.len() == 3
                &&& is_opening_game_3p(c.events@[0])
                &&& c.events@[1] == opening_start_3p()
                &&& c.events@[2] == opening_tile_event_3p()
                &&& opening_fault_3p(opening_mirror_3p(c.events@[0])) is None
                &&& actions_view(c.legal_actions@) == legals_of(
                    turn_actions(core_view(opening_mirror_3p(c.events@[0])->Ok_0, 0)),
                    core_view(opening_mirror_3p(c.events@[0])->Ok_0, 0),
                )
                &&& c.wall_remaining == core_view(opening_mirror_3p(c.events@[0])->Ok_0, 0).tiles_left
            },
            Err(e) => forall|start: Event3p|
                start is StartGame ==> opening_fault_3p(#[trigger] opening_mirror_3p(start)) == Some(e@),
        },
{
    let mut mirror = Mirror3p::new(0);
    proof { reveal(known_3p); }
    let start = game_start_3p();
    let ghost first = start;
    match mirror.feed(start) {
        Ok(_) => {},
        Err(e) => {
            let fault = join2("3p dealer-opening smoke mirror failed: ", e.as_str());
            proof { lemma_all_starts_3p(first, fault@); }
            return Err(fault);
        },
    }
    match mirror.feed(hand_start_3p()) {
        Ok(_) => {},
        Err(e) => {
            let fault = join2("3p dealer-opening smoke mirror failed: ", e.as_str());
            proof { lemma_all_starts_3p(first, fault@); }
            return Err(fault);
        },
    }
    match mirror.feed(opening_event_3p()) {
        Ok(_) => {},
        Err(e) => {
            let fault = join2("3p dealer-opening smoke mirror failed: ", e.as_str());
            proof { lemma_all_starts_3p(first, fault@); }
            return Err(fault);
        },
    }
    assert(opening_mirror_3p(first) == Ok::<MirrorFacts, Seq<char>>(mirror.facts()));
    let view = mirror.mirror_view(0);
    assert(view@ == core_view(mirror.facts(), 0));
    if !view_in_play(&view) || view.me.hand.len() == 0 {
        proof { lemma_all_starts_3p(first, "3p dealer-opening smoke produced no neutral discard"@); }
        return Err(owned("3p dealer-opening smoke produced no neutral discard"));
    }
    let actions = mirror.legal_turn(0);
    if !has_opening(&actions) {
        proof { lemma_all_starts_3p(first, "3p dealer-opening smoke produced no neutral discard"@); }
        return Err(owned("3p dealer-opening smoke produced no neutral discard"));
    }
    let legal_actions = turn_actions_to_legal(&actions, &view);
    let again = game_start_3p();
    proof { lemma_game_starts_alike_3p(first, again); }
    Ok(
        OpeningCase3p {
            events: vec![again, hand_start_3p(), opening_event_3p()],
            legal_actions,
            wall_remaining: view.tiles_left,
        },
    )
}

proof fn lemma_all_starts_3p(first: Event3p, fault: Seq<char>)
    requires
        first is StartGame,
        opening_fault_3p(opening_mirror_3p(first)) == Some(fault),
    ensures
        forall|start: Event3p|
            start is StartGame ==> opening_fault_3p(#[trigger] opening_mirror_3p(start)) == Some(fault),
{
    assert forall|start: Event3p| start is StartGame implies opening_fault_3p(#[trigger] opening_mirror_3p(start)) == Some(
        fault,
    ) by {
        lemma_game_starts_alike_3p(first, start);
    }
}

proof fn lemma_game_starts_alike_3p(a: Event3p, b: Event3p)
    requires
        a is StartGame,
        b is StartGame,
    ensures
        opening_mirror_3p(a) == opening_mirror_3p(b),
{
    reveal(step_3p);
}

} // verus!
