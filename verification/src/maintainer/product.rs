//! Integration interfaces: a server that holds the true state, a client that sees one seat's
//! view, and a mirror that follows a table from its events.

use vstd::prelude::*;
use vstd::string::*;
use crate::event::event3p::Event3p;
use crate::event::event4p::Event4p;
use crate::event::same::markers_view;
use crate::mahjong::rules::RiichiRuleProfile;
use crate::mahjong::tile::Tile;
use crate::mahjong::meld::Meld;
use crate::maintainer::action::{PendingRobbery, ReactionAction, RobberyKind, TurnAction};
use crate::maintainer::calc::{my_shanten, view_shanten};
use crate::maintainer::inventory::Seen;
use crate::maintainer::legal::{
    is_discard_furiten, legal_reactions, legal_turn_actions, permanent_furiten, reactions, reactions_are_known,
    responses, turn_actions, turn_is_known,
};
use crate::maintainer::mirror::{new_core, slice_view, stepped, tiles_view, KyokuStart, MirrorCore, MirrorIssue};
use crate::maintainer::mirror_laws::{
    ankan_keeps_sound, chi_keeps_sound, dahai_keeps_sound, daiminkan_keeps_sound, hora_keeps_sound, issues_keep_sound,
    kakan_keeps_sound, lemma_discard_known, lemma_without_known, nukidora_keeps_sound, opening_dahai_keeps_sound, opening_keeps_sound, pon_keeps_sound,
    ryukyoku_keeps_sound, small_steps_keep_sound, start_keeps_sound, tsumo_keeps_sound,
};
use crate::maintainer::mirror_rules::{
    ankan_placed, autoplay_step, can_judge_robbery, committed, consumed_from, dahai_fault, dahai_placed,
    opening_dahai_fault, opening_dahai_placed, declared, has_shape, pon_at, seen_from, awaiting_reach, chi_step,
    core_view, dahai_known, dahai_step, daiminkan_step, degraded, deltas_fit, dora_step, end_game_step,
    end_kyoku_step, hora_known, hora_step, infers, is_sound, kakan_placed, nukidora_placed, opening_dahai_known,
    opening_dahai_step, opening_step, opponents, pon_step, reach_accepted_step, reach_known, reach_step, rejected,
    robbery_known, robbery_step, ryukyoku_step, start_game_step, start_step, tsumo_step, MirrorFacts, StartFacts,
    Step,
};
use crate::maintainer::ordinary::{
    few_reds, hand_in_play, is_hand_in_play, is_view_in_play, known_discard, lemma_reactions_in_play, lemma_turn_in_play,
};
use crate::maintainer::player::{countable, discard_result, SeatState};
use crate::maintainer::reconcile::MirrorQuality;
use crate::maintainer::view::SeatView;
use crate::text::{dec, dec_u64, dec_usize, join2, join3, owned};

verus! {

/// Server interface: the sole holder of the true game state.
pub trait GameServer {
    /// Number of seats.
    fn seat_count(&self) -> usize;

    /// What a seat sees.
    fn view_for(&self, seat: u8) -> SeatView;

    /// Seat whose turn it is.
    fn current_turn(&self) -> u8;

    /// Legal responses of a seat to the current discard.
    fn legal_reactions(&self, seat: u8) -> Vec<ReactionAction>;
}

/// Client interface: plays one seat from its view and the legal actions, and never sees hidden
/// state.
pub trait GameClient {
    /// Chooses a turn action.
    fn choose_turn(&mut self, view: &SeatView, legal: &[TurnAction]) -> TurnAction;

    /// Chooses a response; a client that does not care passes.
    fn choose_reaction(&mut self, view: &SeatView, legal: &[ReactionAction]) -> (r: ReactionAction)
        default_ensures
            r == ReactionAction::Pass,
    {
        ReactionAction::Pass
    }
}

/// How an event is let in.
pub enum EventClass {
    Nothing,
    /// Start of a game or of a hand, with which an unsafe mirror is synchronized again.
    Start,
    /// A discard of a seat, for which a declared riichi waits.
    Discard(u8),
    Other,
}

/// A riichi waits for its discard, and the event is another one.
pub open spec fn breaks_wait(c: MirrorFacts, class: EventClass) -> bool {
    awaiting_reach(c) && match class {
        EventClass::Nothing => false,
        EventClass::Discard(actor) => actor != c.pending_reach->0.actor,
        _ => true,
    }
}

/// Why an event is not looked at, with the state after it.
pub open spec fn gate(c: MirrorFacts, repeats: bool, class: EventClass) -> Option<(MirrorFacts, Seq<char>)> {
    if c.quality != MirrorQuality::Unsafe && repeats && !(class is Nothing) {
        let detail = "duplicate event at index "@ + dec(c.event_index as nat);
        Some((rejected(c, "duplicate_event"@, detail), detail))
    } else if c.quality == MirrorQuality::Unsafe && !(class is Start) {
        Some((c, "mirror_unsafe: resynchronization required"@))
    } else if breaks_wait(c, class) {
        let detail = "phase_error: waiting for seat "@ + dec(c.pending_reach->0.actor as nat) + " declaration discard"@;
        Some((rejected(c, "event_rejected"@, detail), detail))
    } else {
        None
    }
}

/// The state after an accepted event.
pub open spec fn counted(c: MirrorFacts) -> MirrorFacts {
    MirrorFacts { event_index: if c.event_index == u64::MAX { c.event_index } else { (c.event_index + 1) as u64 }, ..c }
}

/// What taking in an event does: the next state, or the same one with the event noted as
/// refused.
pub open spec fn taken_in(c: MirrorFacts, step: Step, after: MirrorFacts, r: Result<(), String>) -> bool {
    match step {
        Ok(d) => r is Ok && after == counted(d),
        Err(detail) => r is Err && r->Err_0@ == detail && after == rejected(c, "event_rejected"@, detail),
    }
}

/// What feeding an event does: `step` is what it makes of the state, if it is let in. A
/// refused event leaves the state but for its quality and the issue that is noted.
pub open spec fn fed(
    c: MirrorFacts,
    repeats: bool,
    class: EventClass,
    step: Step,
    after: MirrorFacts,
    r: Result<(), String>,
) -> bool {
    match gate(c, repeats, class) {
        Some((d, detail)) => r is Err && r->Err_0@ == detail && after == d,
        None => taken_in(c, step, after, r),
    }
}

/// Mirror interface: follows a table from a stream of events and answers for its seats.
pub trait MirrorCenter<E>: Sized {
    /// The state of the mirror.
    spec fn facts(&self) -> MirrorFacts;

    /// The last accepted event.
    spec fn last(&self) -> Option<E>;

    /// What an event makes of a state.
    spec fn step(c: MirrorFacts, event: E) -> Step;

    /// What an event asks about the state is known.
    spec fn step_known(c: MirrorFacts, event: E) -> bool;

    spec fn class(event: E) -> EventClass;

    /// Whether an event says the same as the last accepted one.
    spec fn repeats(last: Option<E>, event: E) -> bool;

    /// A state and an event as play brings them about.
    spec fn in_play(c: MirrorFacts, event: E) -> bool;

    /// Whether an event can be fed: the own hand and the tiles at stake are known, and scores
    /// stay in range.
    fn can_feed(&self, event: &E) -> (r: bool)
        requires
            is_sound(self.facts()),
        ensures
            r == Self::in_play(self.facts(), *event),
            r ==> Self::step_known(self.facts(), *event),
    ;

    /// Feeds one event. An event that contradicts the state is refused: the state stays as it
    /// was, but the mirror is unsafe. The start of a hand makes it safe again, unless a declared
    /// riichi still waits for its discard: then that start is refused too.
    fn feed(&mut self, event: E) -> (r: Result<(), String>)
        requires
            is_sound(old(self).facts()),
            gate(old(self).facts(), Self::repeats(old(self).last(), event), Self::class(event)) is None
                ==> Self::step_known(old(self).facts(), event),
        ensures
            is_sound(final(self).facts()),
            fed(
                old(self).facts(),
                Self::repeats(old(self).last(), event),
                Self::class(event),
                Self::step(old(self).facts(), event),
                final(self).facts(),
                r,
            ),
            final(self).facts().seats == old(self).facts().seats,
            final(self).last() == if r is Ok { Some(event) } else { old(self).last() },
    ;

    /// Current quality. Only an exact mirror allows inference on its own legal actions.
    fn quality(&self) -> (r: MirrorQuality)
        ensures
            r == self.facts().quality,
    ;

    /// Reason for the latest downgrade or refusal.
    fn last_issue(&self) -> (r: Option<&MirrorIssue>)
        ensures
            match r {
                Some(i) => self.facts().issues.len() > 0 && i@ == self.facts().issues.last(),
                None => self.facts().issues.len() == 0,
            },
    ;

    /// Marks lost information. Inference stops until the next hand.
    fn mark_degraded(&mut self, code: &'static str, detail: String)
        requires
            is_sound(old(self).facts()),
        ensures
            is_sound(final(self).facts()),
            final(self).facts() == degraded(old(self).facts(), code@, detail@),
            final(self).last() == old(self).last(),
    ;

    /// View of a seat.
    fn mirror_view(&self, seat: u8) -> (r: SeatView)
        requires
            is_sound(self.facts()),
        ensures
            r@ == core_view(self.facts(), seat),
    ;

    /// Whether the seat should decide now: its turn, or a tile that it may answer.
    fn should_infer(&self, seat: u8) -> (r: bool)
        requires
            is_sound(self.facts()),
            self.facts().pending_robbery is Some ==> reactions_are_known(core_view(self.facts(), seat)),
        ensures
            r == infers(self.facts(), seat),
    ;

    /// Turn actions that the rules allow the seat.
    fn legal_turn(&self, seat: u8) -> (r: Vec<TurnAction>)
        requires
            is_sound(self.facts()),
            turn_is_known(core_view(self.facts(), seat)),
        ensures
            r@ == turn_actions(core_view(self.facts(), seat)),
    {
        let view = self.mirror_view(seat);
        proof { lemma_few_others(self.facts(), seat); }
        assert(view.others@.len() == view@.others.len());
        legal_turn_actions(&view)
    }

    /// Shanten of the seat.
    fn shanten(&self, seat: u8) -> (r: i8)
        requires
            is_sound(self.facts()),
            countable(core_view(self.facts(), seat).me.hand),
        ensures
            r == view_shanten(core_view(self.facts(), seat)),
    {
        let view = self.mirror_view(seat);
        my_shanten(&view)
    }

    /// Whether the seat is in discard furiten. Temporary and riichi furiten do not count.
    fn furiten(&self, seat: u8) -> (r: bool)
        requires
            is_sound(self.facts()),
            core_view(self.facts(), seat).is_live() ==> countable(core_view(self.facts(), seat).me.hand),
        ensures
            r == is_discard_furiten(core_view(self.facts(), seat)),
    {
        let view = self.mirror_view(seat);
        permanent_furiten(&view)
    }

    /// Legal responses of the seat to the latest discard or declaration.
    fn legal_reactions(&self, seat: u8) -> (r: Vec<ReactionAction>)
        requires
            is_sound(self.facts()),
            reactions_are_known(core_view(self.facts(), seat)),
        ensures
            responses(r@) == reactions(core_view(self.facts(), seat)),
    {
        let view = self.mirror_view(seat);
        proof { lemma_few_others(self.facts(), seat); }
        assert(view.others@.len() == view@.others.len());
        legal_reactions(&view)
    }
}

/// The mirror follows a hand in play: what the own seat holds is known, and so are the tiles
/// that can be won on.
pub open spec fn is_core_in_play(c: MirrorFacts) -> bool {
    &&& c.kyotaku < 255
    &&& c.rule_profile.nuki_dora_han <= 2
    &&& few_reds(c.rule_profile.red_fives_3p) && few_reds(c.rule_profile.red_fives_4p)
    &&& c.players.len() > 0 ==> c.oya < c.seats && is_hand_in_play(
        c.players[c.me as int].hand,
        c.players[c.me as int].melds,
    )
    &&& c.last_discard is Some ==> known_discard(c.last_discard->0)
    &&& c.pending_robbery is Some ==> c.pending_robbery->0.tile.is_known()
}

proof fn lemma_others_exact(players: Seq<SeatState>, seat: u8, n: int)
    requires
        0 <= n <= players.len(),
    ensures
        opponents(players, seat, n).len() == n - if seat < n { 1int } else { 0 },
    decreases n,
{
    if n > 0 {
        lemma_others_exact(players, seat, n - 1);
    }
}

/// The own view of a mirror in play is one in play.
proof fn lemma_own_view_in_play(c: MirrorFacts)
    requires
        has_shape(c),
        c.dora_indicators.len() <= 5,
        is_core_in_play(c),
    ensures
        core_view(c, c.me).is_live() ==> is_view_in_play(core_view(c, c.me)),
        turn_is_known(core_view(c, c.me)),
        reactions_are_known(core_view(c, c.me)),
{
    let v = core_view(c, c.me);
    if v.is_live() {
        lemma_others_exact(c.players, c.me, c.seats as int);
        assert(is_view_in_play(v));
    }
    lemma_turn_in_play(v);
    lemma_reactions_in_play(v);
}

/// A declaration of a known tile can be judged by a mirror in play.
proof fn lemma_robbery_in_play(c: MirrorFacts, actor: u8, caller: SeatState, known: Seen, robbery: PendingRobbery, closes: bool)
    requires
        is_sound(c),
        is_core_in_play(c),
        c.started,
        actor < c.seats,
        robbery.actor == actor,
        robbery.tile.is_known(),
    ensures
        can_judge_robbery(declared(c, actor, caller, known, robbery, closes)),
{
    let d = declared(c, actor, caller, known, robbery, closes);
    let e = committed(d);
    if actor != c.me {
        assert(e.players[e.me as int].hand == c.players[c.me as int].hand);
        assert(e.players[e.me as int].melds == c.players[c.me as int].melds);
        lemma_own_view_in_play(e);
    }
}

proof fn lemma_kakan_in_play(c: MirrorFacts, actor: u8, pai: Tile, consumed: [Tile; 3])
    requires
        is_sound(c),
        is_core_in_play(c),
        pai.is_known(),
    ensures
        robbery_known(kakan_placed(c, actor, pai, consumed)),
{
    let placed = kakan_placed(c, actor, pai, consumed);
    if placed is Ok {
        let p = consumed_from(c, actor, seq![pai])->Ok_0;
        let at = pon_at(c.players[actor as int].melds, pai.kind());
        lemma_robbery_in_play(
            c,
            actor,
            SeatState { melds: p.melds.update(at, Meld::Kakan { tile: pai.deaka(), added: pai }), ..p },
            seen_from(c, actor, seq![pai])->Ok_0,
            PendingRobbery { actor, tile: pai, kind: RobberyKind::Kakan },
            false,
        );
    }
}

proof fn lemma_ankan_in_play(c: MirrorFacts, actor: u8, consumed: [Tile; 4])
    requires
        is_sound(c),
        is_core_in_play(c),
        consumed@[0].is_known(),
    ensures
        robbery_known(ankan_placed(c, actor, consumed)),
{
    let placed = ankan_placed(c, actor, consumed);
    if placed is Ok {
        let p = consumed_from(c, actor, consumed@)->Ok_0;
        lemma_robbery_in_play(
            c,
            actor,
            SeatState { melds: p.melds.push(Meld::Ankan { tile: consumed@[0].deaka() }), ..p },
            seen_from(c, actor, consumed@)->Ok_0,
            PendingRobbery { actor, tile: consumed@[0].deaka(), kind: RobberyKind::Ankan },
            true,
        );
    }
}

proof fn lemma_nukidora_in_play(c: MirrorFacts, actor: u8, pai: Tile)
    requires
        is_sound(c),
        is_core_in_play(c),
    ensures
        robbery_known(nukidora_placed(c, actor, pai)),
{
    let placed = nukidora_placed(c, actor, pai);
    if placed is Ok {
        let p = consumed_from(c, actor, seq![pai])->Ok_0;
        lemma_robbery_in_play(
            c,
            actor,
            SeatState { melds: p.melds.push(Meld::Nukidora { tile: pai.deaka() }), ..p },
            seen_from(c, actor, seq![pai])->Ok_0,
            PendingRobbery { actor, tile: pai, kind: RobberyKind::Nukidora },
            true,
        );
    }
}

/// A discard can be judged by a mirror in play.
proof fn lemma_dahai_in_play(c: MirrorFacts, actor: u8, pai: Tile, tsumogiri: bool)
    requires
        is_sound(c),
        is_core_in_play(c),
    ensures
        dahai_known(c, actor, pai, tsumogiri),
{
    if dahai_fault(c, actor, pai, tsumogiri) is None {
        if actor == c.me {
            let p = c.players[actor as int];
            if discard_result(p, pai, tsumogiri) is Ok {
                lemma_discard_known(p, pai, tsumogiri);
            }
        } else if dahai_placed(c, actor, pai, tsumogiri) is Ok {
            let d = committed(dahai_placed(c, actor, pai, tsumogiri)->Ok_0);
            assert(d.players[c.me as int].hand == c.players[c.me as int].hand);
        }
    }
}

/// The dealer's opening discard can be judged by a mirror in play.
proof fn lemma_opening_dahai_in_play(c: MirrorFacts, actor: u8, pai: Tile)
    requires
        is_sound(c),
        is_core_in_play(c),
    ensures
        opening_dahai_known(c, actor, pai),
{
    if opening_dahai_fault(c, actor, pai) is None {
        if actor == c.me {
            lemma_without_known(c.players[actor as int].hand, pai);
        } else if opening_dahai_placed(c, actor, pai) is Ok {
            let d = committed(opening_dahai_placed(c, actor, pai)->Ok_0);
            assert(d.players[c.me as int].hand == c.players[c.me as int].hand);
        }
    }
}

/// Whether a mirror follows a hand in play.
fn core_in_play(core: &MirrorCore) -> (r: bool)
    requires
        has_shape(core@),
    ensures
        r == is_core_in_play(core@),
{
    assert(core.players@.len() == core@.players.len());
    let hand_known = if core.players.len() > 0 {
        let me = &core.players[core.me as usize];
        assert(core@.players[core.me as int] == me@);
        (core.oya as usize) < core.seats && hand_in_play(&me.hand, &me.melds)
    } else {
        true
    };
    let discard_known = match core.last_discard {
        Some((from, tile)) => from < 255 && !tile.is_unknown(),
        None => true,
    };
    let tile_known = match core.pending_robbery {
        Some(p) => !p.tile.is_unknown(),
        None => true,
    };
    let r3 = core.rule_profile.red_fives_3p;
    let r4 = core.rule_profile.red_fives_4p;
    core.kyotaku < 255 && core.rule_profile.nuki_dora_han <= 2 && r3.man <= 4 && r3.pin <= 4 && r3.sou <= 4 && r4.man <= 4
        && r4.pin <= 4 && r4.sou <= 4 && hand_known && discard_known && tile_known
}

/// Whether deltas leave scores.
fn scores_take(scores: &Vec<i32>, deltas: &[i32]) -> (r: bool)
    ensures
        r == deltas_fit(scores@, Some(deltas@)),
{
    if deltas.len() != scores.len() {
        return true;
    }
    let mut i: usize = 0;
    while i < scores.len()
        invariant
            i <= scores.len(),
            scores.len() == deltas@.len(),
            forall|j: int| 0 <= j < i ==> i32::MIN <= #[trigger] scores@[j] + deltas@[j] <= i32::MAX,
        decreases scores.len() - i,
    {
        let sum: i64 = scores[i] as i64 + deltas[i] as i64;
        if sum < i32::MIN as i64 || sum > i32::MAX as i64 {
            return false;
        }
        i = i + 1;
    }
    true
}

proof fn lemma_others_len(players: Seq<SeatState>, seat: u8, n: int)
    requires
        n >= 0,
    ensures
        opponents(players, seat, n).len() <= n,
    decreases n,
{
    if n > 0 {
        lemma_others_len(players, seat, n - 1);
    }
}

proof fn lemma_few_others(c: MirrorFacts, seat: u8)
    requires
        c.seats <= 4,
    ensures
        core_view(c, seat).others.len() <= 4,
{
    lemma_others_len(c.players, seat, c.seats as int);
}

/// Live wall at the start of a four-player hand: 136 tiles less 52 dealt and 14 dead.
pub const LIVE_WALL_4P: u32 = 70;
/// Live wall at the start of a three-player hand: 108 tiles less 39 dealt and 14 dead.
pub const LIVE_WALL_3P: u32 = 55;

/// Why an event is not looked at, with the issue noted; `None` where it is let in.
fn turn_away(core: &mut MirrorCore, repeated: bool, class: &EventClass) -> (r: Option<String>)
    requires
        is_sound(old(core)@),
    ensures
        is_sound(final(core)@),
        match gate(old(core)@, repeated, *class) {
            Some((d, detail)) => r is Some && r->0@ == detail && final(core)@ == d,
            None => r is None && *final(core) == *old(core),
        },
{
    let unsafe_now = core.quality == MirrorQuality::Unsafe;
    if !unsafe_now && repeated && !matches!(*class, EventClass::Nothing) {
        let detail = join2("duplicate event at index ", dec_u64(core.event_index).as_str());
        proof { issues_keep_sound(core@, "duplicate_event"@, detail@); }
        core.reject("duplicate_event", detail.clone());
        return Some(detail);
    }
    if unsafe_now && !matches!(*class, EventClass::Start) {
        return Some(owned("mirror_unsafe: resynchronization required"));
    }
    if breaks_reach_wait(core, class) {
        let expected: u8 = match core.pending_reach_actor() {
            Some(a) => a,
            None => 0,
        };
        let detail = join3("phase_error: waiting for seat ", dec_usize(expected as usize).as_str(), " declaration discard");
        proof { issues_keep_sound(core@, "event_rejected"@, detail@); }
        core.reject("event_rejected", detail.clone());
        return Some(detail);
    }
    None
}

fn breaks_reach_wait(core: &MirrorCore, class: &EventClass) -> (r: bool)
    ensures
        r == breaks_wait(core@, *class),
{
    if !core.awaiting_reach_discard() {
        return false;
    }
    match core.pending_reach_actor() {
        None => false,
        Some(expected) => match class {
            EventClass::Discard(actor) => *actor != expected,
            EventClass::Nothing => false,
            _ => true,
        },
    }
}

fn clone_list(v: &[i32]) -> (r: Vec<i32>)
    ensures
        r@ == v@,
{
    vstd::slice::slice_to_vec(v)
}

// Four players.

/// Mirror of a four-player table.
pub struct Mirror4p {
    pub core: MirrorCore,
    pub last_event: Option<Event4p>,
}

/// What a start event says of the table, from the mirror's own seat.
pub open spec fn start_of_4p(c: MirrorFacts, event: Event4p) -> StartFacts {
    match event {
        Event4p::StartKyoku { bakaze, dora_marker, kyoku, honba, kyotaku, oya, scores, tehais } => StartFacts {
            bakaze,
            dora_marker,
            kyoku,
            honba,
            kyotaku,
            oya,
            scores: scores@,
            my_hand: tehais@[c.me as int]@,
            tiles_left: LIVE_WALL_4P,
        },
        _ => arbitrary(),
    }
}

/// What an event makes of a state.
#[verifier::opaque]
pub open spec fn step_4p(c: MirrorFacts, event: Event4p) -> Step {
    match event {
        Event4p::StartKyoku { .. } => if c.me >= c.seats {
            Err(
                "invalid_mirror_seat: seat "@ + dec(c.me as nat) + " is outside 0.."@ + dec(c.seats as nat),
            )
        } else {
            start_step(c, start_of_4p(c, event), false)
        },
        Event4p::Tsumo { actor, pai } => tsumo_step(c, actor, pai),
        Event4p::DealerOpening { actor, pai } => opening_step(c, actor, pai),
        Event4p::Dahai { actor, pai, tsumogiri } => dahai_step(c, actor, pai, tsumogiri),
        Event4p::DealerOpeningDahai { actor, pai } => opening_dahai_step(c, actor, pai),
        Event4p::Chi { actor, target, pai, consumed } => chi_step(c, actor, target, pai, consumed),
        Event4p::Pon { actor, target, pai, consumed } => pon_step(c, actor, target, pai, consumed),
        Event4p::Daiminkan { actor, target, pai, consumed } => daiminkan_step(c, actor, target, pai, consumed),
        Event4p::Kakan { actor, pai, consumed } => robbery_step(kakan_placed(c, actor, pai, consumed)),
        Event4p::Ankan { actor, consumed } => robbery_step(ankan_placed(c, actor, consumed)),
        Event4p::Dora { dora_marker } => dora_step(c, dora_marker),
        Event4p::Reach { actor } => reach_step(c, actor),
        Event4p::ReachAccepted { actor } => reach_accepted_step(c, actor),
        Event4p::SeatForcedAutoplay { actor } => autoplay_step(c, actor),
        Event4p::SeatResumed { actor } => autoplay_step(c, actor),
        Event4p::Hora { actor, target, deltas, ura_markers, .. } => hora_step(
            c,
            actor,
            target,
            crate::event::event4p::array_view4(deltas),
            markers_view(ura_markers),
        ),
        Event4p::Ryukyoku { deltas } => ryukyoku_step(c, crate::event::event4p::array_view4(deltas)),
        Event4p::EndKyoku => end_kyoku_step(c),
        Event4p::EndGame => end_game_step(c),
        Event4p::StartGame { .. } => start_game_step(c),
        Event4p::Nothing => Ok(c),
    }
}

/// What an event asks about a state is known.
#[verifier::opaque]
pub open spec fn known_4p(c: MirrorFacts, event: Event4p) -> bool {
    match event {
        Event4p::Dahai { actor, pai, tsumogiri } => dahai_known(c, actor, pai, tsumogiri),
        Event4p::DealerOpeningDahai { actor, pai } => opening_dahai_known(c, actor, pai),
        Event4p::Kakan { actor, pai, consumed } => robbery_known(kakan_placed(c, actor, pai, consumed)),
        Event4p::Ankan { actor, consumed } => robbery_known(ankan_placed(c, actor, consumed)),
        Event4p::Reach { actor } => reach_known(c, actor),
        Event4p::ReachAccepted { actor } => reach_accepted_step(c, actor) is Ok ==> c.kyotaku < 255,
        Event4p::Hora { actor, target, deltas, ura_markers, .. } => hora_known(
            c,
            actor,
            target,
            crate::event::event4p::array_view4(deltas),
            markers_view(ura_markers),
        ),
        Event4p::Ryukyoku { deltas } => deltas_fit(c.scores, crate::event::event4p::array_view4(deltas)),
        _ => true,
    }
}

/// An event that names the tiles at stake and keeps scores in range.
pub open spec fn fits_4p(c: MirrorFacts, event: Event4p) -> bool {
    match event {
        Event4p::Kakan { pai, .. } => pai.is_known(),
        Event4p::Ankan { consumed, .. } => consumed@[0].is_known(),
        Event4p::Hora { deltas, .. } => deltas_fit(c.scores, crate::event::event4p::array_view4(deltas)),
        Event4p::Ryukyoku { deltas } => deltas_fit(c.scores, crate::event::event4p::array_view4(deltas)),
        _ => true,
    }
}

fn event_fits_4p(core: &MirrorCore, event: &Event4p) -> (r: bool)
    ensures
        r == fits_4p(core@, *event),
{
    match event {
        Event4p::Kakan { pai, .. } => !pai.is_unknown(),
        Event4p::Ankan { consumed, .. } => !consumed[0].is_unknown(),
        Event4p::Hora { deltas, .. } => match deltas {
            Some(d) => scores_take(&core.scores, d.as_slice()),
            None => true,
        },
        Event4p::Ryukyoku { deltas } => match deltas {
            Some(d) => scores_take(&core.scores, d.as_slice()),
            None => true,
        },
        _ => true,
    }
}

/// A mirror in play can take every event that names its tiles and keeps scores in range.
pub proof fn events_in_play_4p(c: MirrorFacts, event: Event4p)
    requires
        is_sound(c),
        is_core_in_play(c),
        fits_4p(c, event),
    ensures
        known_4p(c, event),
{
    reveal(known_4p);
    lemma_own_view_in_play(c);
    match event {
        Event4p::Dahai { actor, pai, tsumogiri } => { lemma_dahai_in_play(c, actor, pai, tsumogiri); },
        Event4p::DealerOpeningDahai { actor, pai } => { lemma_opening_dahai_in_play(c, actor, pai); },
        Event4p::Kakan { actor, pai, consumed } => { lemma_kakan_in_play(c, actor, pai, consumed); },
        Event4p::Ankan { actor, consumed } => { lemma_ankan_in_play(c, actor, consumed); },
        _ => {},
    }
}

pub open spec fn class_4p(event: Event4p) -> EventClass {
    match event {
        Event4p::Nothing => EventClass::Nothing,
        Event4p::StartKyoku { .. } => EventClass::Start,
        Event4p::StartGame { .. } => EventClass::Start,
        Event4p::Dahai { actor, .. } => EventClass::Discard(actor),
        Event4p::DealerOpeningDahai { actor, .. } => EventClass::Discard(actor),
        _ => EventClass::Other,
    }
}

fn class_of_4p(event: &Event4p) -> (r: EventClass)
    ensures
        r == class_4p(*event),
{
    match event {
        Event4p::Nothing => EventClass::Nothing,
        Event4p::StartKyoku { .. } => EventClass::Start,
        Event4p::StartGame { .. } => EventClass::Start,
        Event4p::Dahai { actor, .. } => EventClass::Discard(*actor),
        Event4p::DealerOpeningDahai { actor, .. } => EventClass::Discard(*actor),
        _ => EventClass::Other,
    }
}

fn apply_4p(core: &mut MirrorCore, event: &Event4p) -> (r: Result<(), String>)
    requires
        is_sound(old(core)@),
        old(core).seats == 4,
        known_4p(old(core)@, *event),
    ensures
        stepped(r, final(core)@, step_4p(old(core)@, *event)),
{
    proof {
        reveal(step_4p);
        reveal(known_4p);
    }
    match event {
        Event4p::StartKyoku { .. } => apply_start_4p(core, event),
        Event4p::Tsumo { actor, pai } => core.tsumo(*actor, *pai),
        Event4p::DealerOpening { actor, pai } => core.open_dealer(*actor, *pai),
        Event4p::Dahai { actor, pai, tsumogiri } => core.dahai(*actor, *pai, *tsumogiri),
        Event4p::DealerOpeningDahai { actor, pai } => core.dealer_opening_dahai(*actor, *pai),
        Event4p::Chi { actor, target, pai, consumed } => core.chi(*actor, *target, *pai, *consumed),
        Event4p::Pon { actor, target, pai, consumed } => core.pon(*actor, *target, *pai, *consumed),
        Event4p::Daiminkan { actor, target, pai, consumed } => core.daiminkan(*actor, *target, *pai, *consumed),
        Event4p::Kakan { actor, pai, consumed } => core.kakan(*actor, *pai, *consumed),
        Event4p::Ankan { actor, consumed } => core.ankan(*actor, *consumed),
        Event4p::Dora { dora_marker } => core.dora(*dora_marker),
        Event4p::Reach { actor } => core.reach(*actor),
        Event4p::ReachAccepted { actor } => core.reach_accepted(*actor),
        Event4p::SeatForcedAutoplay { actor } => core.autoplay(*actor),
        Event4p::SeatResumed { actor } => core.autoplay(*actor),
        Event4p::Hora { .. } => apply_hora_4p(core, event),
        Event4p::Ryukyoku { deltas } => match deltas {
            Some(d) => core.ryukyoku(Some(d.as_slice())),
            None => core.ryukyoku(None),
        },
        Event4p::EndKyoku => core.end_kyoku(),
        Event4p::EndGame => core.end_game(),
        Event4p::StartGame { .. } => core.start_game(),
        Event4p::Nothing => Ok(()),
    }
}

fn apply_start_4p(core: &mut MirrorCore, event: &Event4p) -> (r: Result<(), String>)
    requires
        is_sound(old(core)@),
        old(core).seats == 4,
        *event is StartKyoku,
    ensures
        stepped(r, final(core)@, step_4p(old(core)@, *event)),
{
    proof {
        reveal(step_4p);
        reveal(known_4p);
    }
    if core.me as usize >= core.seats {
        let mut e = join3("invalid_mirror_seat: seat ", dec_usize(core.me as usize).as_str(), " is outside 0..");
        e.append(dec_usize(core.seats).as_str());
        return Err(e);
    }
    match event {
        Event4p::StartKyoku { bakaze, dora_marker, kyoku, honba, kyotaku, oya, scores, tehais } => {
            let start = KyokuStart {
                bakaze: *bakaze,
                dora_marker: *dora_marker,
                kyoku: *kyoku,
                honba: *honba,
                kyotaku: *kyotaku,
                oya: *oya,
                scores: clone_list(scores.as_slice()),
                my_hand: tehais[core.me as usize],
                tiles_left: LIVE_WALL_4P,
            };
            assert(start@ == start_of_4p(core@, *event));
            core.start_kyoku(start, false)
        },
        _ => Ok(()),
    }
}

fn apply_hora_4p(core: &mut MirrorCore, event: &Event4p) -> (r: Result<(), String>)
    requires
        is_sound(old(core)@),
        *event is Hora,
        known_4p(old(core)@, *event),
    ensures
        stepped(r, final(core)@, step_4p(old(core)@, *event)),
{
    proof {
        reveal(step_4p);
        reveal(known_4p);
    }
    match event {
        Event4p::Hora { actor, target, deltas, ura_markers, .. } => {
            let d: Option<&[i32]> = match deltas {
                Some(x) => Some(x.as_slice()),
                None => None,
            };
            let u: Option<&[Tile]> = match ura_markers {
                Some(x) => Some(x.as_slice()),
                None => None,
            };
            assert(slice_view(d) == crate::event::event4p::array_view4(*deltas));
            assert(tiles_view(u) == markers_view(*ura_markers));
            core.hora(*actor, *target, d, u)
        },
        _ => Ok(()),
    }
}

#[verifier::rlimit(40)]
fn take_in_4p(core: &mut MirrorCore, event: &Event4p) -> (r: Result<(), String>)
    requires
        is_sound(old(core)@),
        old(core).seats == 4,
        known_4p(old(core)@, *event),
    ensures
        is_sound(final(core)@),
        final(core).seats == 4,
        taken_in(old(core)@, step_4p(old(core)@, *event), final(core)@, r),
{
    let mut next = core.clone();
    match apply_4p(&mut next, event) {
        Ok(_) => {
            proof { events_keep_sound_4p(core@, *event); }
            if next.event_index < u64::MAX {
                next.event_index = next.event_index + 1;
            }
            *core = next;
            Ok(())
        },
        Err(detail) => {
            proof { issues_keep_sound(core@, "event_rejected"@, detail@); }
            core.reject("event_rejected", detail.clone());
            Err(detail)
        },
    }
}

fn repeats_last_4p(last: &Option<Event4p>, event: &Event4p) -> (r: bool)
    ensures
        r == (*last is Some && (*last)->0.spec_same(event)),
{
    match last {
        Some(e) => e.same(event),
        None => false,
    }
}

/// Every event of a four-player table keeps a mirror's state consistent.
#[verifier::rlimit(50)]
pub proof fn events_keep_sound_4p(c: MirrorFacts, event: Event4p)
    requires
        is_sound(c),
        c.seats == 4,
        step_4p(c, event) is Ok,
    ensures
        is_sound(step_4p(c, event)->Ok_0),
        step_4p(c, event)->Ok_0.seats == 4,
{
    reveal(step_4p);
    match event {
        Event4p::StartKyoku { .. } => {
            start_keeps_sound(c, start_of_4p(c, event), false);
        },
        Event4p::Tsumo { actor, pai } => { tsumo_keeps_sound(c, actor, pai); },
        Event4p::DealerOpening { actor, pai } => { opening_keeps_sound(c, actor, pai); },
        Event4p::Dahai { actor, pai, tsumogiri } => { dahai_keeps_sound(c, actor, pai, tsumogiri); },
        Event4p::DealerOpeningDahai { actor, pai } => { opening_dahai_keeps_sound(c, actor, pai); },
        Event4p::Chi { actor, target, pai, consumed } => { chi_keeps_sound(c, actor, target, pai, consumed); },
        Event4p::Pon { actor, target, pai, consumed } => { pon_keeps_sound(c, actor, target, pai, consumed); },
        Event4p::Daiminkan { actor, target, pai, consumed } => { daiminkan_keeps_sound(c, actor, target, pai, consumed); },
        Event4p::Kakan { actor, pai, consumed } => { kakan_keeps_sound(c, actor, pai, consumed); },
        Event4p::Ankan { actor, consumed } => { ankan_keeps_sound(c, actor, consumed); },
        Event4p::Dora { dora_marker } => { small_steps_keep_sound(c, 0, dora_marker); },
        Event4p::Reach { actor } => { small_steps_keep_sound(c, actor, Tile::unknown()); },
        Event4p::ReachAccepted { actor } => { small_steps_keep_sound(c, actor, Tile::unknown()); },
        Event4p::Hora { actor, target, deltas, ura_markers, .. } => {
            hora_keeps_sound(c, actor, target, crate::event::event4p::array_view4(deltas), markers_view(ura_markers));
        },
        Event4p::Ryukyoku { deltas } => {
            ryukyoku_keeps_sound(c, crate::event::event4p::array_view4(deltas));
        },
        Event4p::EndKyoku => { small_steps_keep_sound(c, 0, Tile::unknown()); },
        Event4p::EndGame => { small_steps_keep_sound(c, 0, Tile::unknown()); },
        Event4p::StartGame { .. } => { small_steps_keep_sound(c, 0, Tile::unknown()); },
        _ => {},
    }
}

impl Mirror4p {
    /// An empty mirror for a seat, under the default rules.
    pub fn new(me: u8) -> (r: Self)
        ensures
            r.core@ == new_core(4, me, RiichiRuleProfile::tenhou()),
            is_sound(r.core@),
            r.last_event is None,
    {
        Self::new_with_rule_profile(me, RiichiRuleProfile::default())
    }

    /// An empty mirror with explicit rules.
    pub fn new_with_rule_profile(me: u8, rule_profile: RiichiRuleProfile) -> (r: Self)
        ensures
            r.core@ == new_core(4, me, rule_profile),
            is_sound(r.core@),
            r.last_event is None,
    {
        Mirror4p { core: MirrorCore::new(4, me, rule_profile), last_event: None }
    }
}

impl MirrorCenter<Event4p> for Mirror4p {
    open spec fn facts(&self) -> MirrorFacts {
        self.core@
    }

    open spec fn last(&self) -> Option<Event4p> {
        self.last_event
    }

    open spec fn step(c: MirrorFacts, event: Event4p) -> Step {
        step_4p(c, event)
    }

    open spec fn step_known(c: MirrorFacts, event: Event4p) -> bool {
        c.seats == 4 && known_4p(c, event)
    }

    open spec fn class(event: Event4p) -> EventClass {
        class_4p(event)
    }

    open spec fn repeats(last: Option<Event4p>, event: Event4p) -> bool {
        last is Some && last->0.spec_same(&event)
    }

    open spec fn in_play(c: MirrorFacts, event: Event4p) -> bool {
        c.seats == 4 && is_core_in_play(c) && fits_4p(c, event)
    }

    fn can_feed(&self, event: &Event4p) -> (r: bool) {
        proof {
            if Self::in_play(self.core@, *event) {
                events_in_play_4p(self.core@, *event);
            }
        }
        self.core.seats == 4 && core_in_play(&self.core) && event_fits_4p(&self.core, event)
    }

    fn feed(&mut self, event: Event4p) -> (r: Result<(), String>) {
        let repeated = repeats_last_4p(&self.last_event, &event);
        match turn_away(&mut self.core, repeated, &class_of_4p(&event)) {
            Some(detail) => {
                return Err(detail);
            },
            None => {},
        }
        let r = take_in_4p(&mut self.core, &event);
        if r.is_ok() {
            self.last_event = Some(event);
        }
        r
    }

    fn quality(&self) -> (r: MirrorQuality) {
        self.core.quality
    }

    fn last_issue(&self) -> (r: Option<&MirrorIssue>) {
        if self.core.issues.len() > 0 {
            Some(&self.core.issues[self.core.issues.len() - 1])
        } else {
            None
        }
    }

    fn mark_degraded(&mut self, code: &'static str, detail: String) {
        proof { issues_keep_sound(self.core@, code@, detail@); }
        self.core.degrade(code, detail);
    }

    fn mirror_view(&self, seat: u8) -> (r: SeatView) {
        self.core.mirror_view(seat)
    }

    fn should_infer(&self, seat: u8) -> (r: bool) {
        self.core.should_infer(seat)
    }
}

// Three players.

/// Mirror of a three-player table.
pub struct Mirror3p {
    pub core: MirrorCore,
    pub last_event: Option<Event3p>,
}

/// What a start event says of the table, from the mirror's own seat.
pub open spec fn start_of_3p(c: MirrorFacts, event: Event3p) -> StartFacts {
    match event {
        Event3p::StartKyoku { bakaze, dora_marker, kyoku, honba, kyotaku, oya, scores, tehais } => StartFacts {
            bakaze,
            dora_marker,
            kyoku,
            honba,
            kyotaku,
            oya,
            scores: scores@,
            my_hand: tehais@[c.me as int]@,
            tiles_left: LIVE_WALL_3P,
        },
        _ => arbitrary(),
    }
}

/// What an event makes of a state.
#[verifier::opaque]
pub open spec fn step_3p(c: MirrorFacts, event: Event3p) -> Step {
    match event {
        Event3p::StartKyoku { .. } => if c.me >= c.seats {
            Err(
                "invalid_mirror_seat: seat "@ + dec(c.me as nat) + " is outside 0.."@ + dec(c.seats as nat),
            )
        } else {
            start_step(c, start_of_3p(c, event), true)
        },
        Event3p::Tsumo { actor, pai } => tsumo_step(c, actor, pai),
        Event3p::DealerOpening { actor, pai } => opening_step(c, actor, pai),
        Event3p::Dahai { actor, pai, tsumogiri } => dahai_step(c, actor, pai, tsumogiri),
        Event3p::DealerOpeningDahai { actor, pai } => opening_dahai_step(c, actor, pai),
        Event3p::Pon { actor, target, pai, consumed } => pon_step(c, actor, target, pai, consumed),
        Event3p::Daiminkan { actor, target, pai, consumed } => daiminkan_step(c, actor, target, pai, consumed),
        Event3p::Kakan { actor, pai, consumed } => robbery_step(kakan_placed(c, actor, pai, consumed)),
        Event3p::Ankan { actor, consumed } => robbery_step(ankan_placed(c, actor, consumed)),
        Event3p::Nukidora { actor, pai } => robbery_step(nukidora_placed(c, actor, pai)),
        Event3p::Dora { dora_marker } => dora_step(c, dora_marker),
        Event3p::Reach { actor } => reach_step(c, actor),
        Event3p::ReachAccepted { actor } => reach_accepted_step(c, actor),
        Event3p::SeatForcedAutoplay { actor } => autoplay_step(c, actor),
        Event3p::SeatResumed { actor } => autoplay_step(c, actor),
        Event3p::Hora { actor, target, deltas, ura_markers, .. } => hora_step(
            c,
            actor,
            target,
            crate::event::event3p::array_view3(deltas),
            markers_view(ura_markers),
        ),
        Event3p::Ryukyoku { deltas } => ryukyoku_step(c, crate::event::event3p::array_view3(deltas)),
        Event3p::EndKyoku => end_kyoku_step(c),
        Event3p::EndGame => end_game_step(c),
        Event3p::StartGame { .. } => start_game_step(c),
        Event3p::Nothing => Ok(c),
    }
}

/// What an event asks about a state is known.
#[verifier::opaque]
pub open spec fn known_3p(c: MirrorFacts, event: Event3p) -> bool {
    match event {
        Event3p::Dahai { actor, pai, tsumogiri } => dahai_known(c, actor, pai, tsumogiri),
        Event3p::DealerOpeningDahai { actor, pai } => opening_dahai_known(c, actor, pai),
        Event3p::Kakan { actor, pai, consumed } => robbery_known(kakan_placed(c, actor, pai, consumed)),
        Event3p::Ankan { actor, consumed } => robbery_known(ankan_placed(c, actor, consumed)),
        Event3p::Nukidora { actor, pai } => robbery_known(nukidora_placed(c, actor, pai)),
        Event3p::Reach { actor } => reach_known(c, actor),
        Event3p::ReachAccepted { actor } => reach_accepted_step(c, actor) is Ok ==> c.kyotaku < 255,
        Event3p::Hora { actor, target, deltas, ura_markers, .. } => hora_known(
            c,
            actor,
            target,
            crate::event::event3p::array_view3(deltas),
            markers_view(ura_markers),
        ),
        Event3p::Ryukyoku { deltas } => deltas_fit(c.scores, crate::event::event3p::array_view3(deltas)),
        _ => true,
    }
}

/// An event that names the tiles at stake and keeps scores in range.
pub open spec fn fits_3p(c: MirrorFacts, event: Event3p) -> bool {
    match event {
        Event3p::Kakan { pai, .. } => pai.is_known(),
        Event3p::Ankan { consumed, .. } => consumed@[0].is_known(),
        Event3p::Hora { deltas, .. } => deltas_fit(c.scores, crate::event::event3p::array_view3(deltas)),
        Event3p::Ryukyoku { deltas } => deltas_fit(c.scores, crate::event::event3p::array_view3(deltas)),
        _ => true,
    }
}

fn event_fits_3p(core: &MirrorCore, event: &Event3p) -> (r: bool)
    ensures
        r == fits_3p(core@, *event),
{
    match event {
        Event3p::Kakan { pai, .. } => !pai.is_unknown(),
        Event3p::Ankan { consumed, .. } => !consumed[0].is_unknown(),
        Event3p::Hora { deltas, .. } => match deltas {
            Some(d) => scores_take(&core.scores, d.as_slice()),
            None => true,
        },
        Event3p::Ryukyoku { deltas } => match deltas {
            Some(d) => scores_take(&core.scores, d.as_slice()),
            None => true,
        },
        _ => true,
    }
}

/// A mirror in play can take every event that names its tiles and keeps scores in range.
pub proof fn events_in_play_3p(c: MirrorFacts, event: Event3p)
    requires
        is_sound(c),
        is_core_in_play(c),
        fits_3p(c, event),
    ensures
        known_3p(c, event),
{
    reveal(known_3p);
    lemma_own_view_in_play(c);
    match event {
        Event3p::Dahai { actor, pai, tsumogiri } => { lemma_dahai_in_play(c, actor, pai, tsumogiri); },
        Event3p::DealerOpeningDahai { actor, pai } => { lemma_opening_dahai_in_play(c, actor, pai); },
        Event3p::Kakan { actor, pai, consumed } => { lemma_kakan_in_play(c, actor, pai, consumed); },
        Event3p::Ankan { actor, consumed } => { lemma_ankan_in_play(c, actor, consumed); },
        Event3p::Nukidora { actor, pai } => { lemma_nukidora_in_play(c, actor, pai); },
        _ => {},
    }
}

pub open spec fn class_3p(event: Event3p) -> EventClass {
    match event {
        Event3p::Nothing => EventClass::Nothing,
        Event3p::StartKyoku { .. } => EventClass::Start,
        Event3p::StartGame { .. } => EventClass::Start,
        Event3p::Dahai { actor, .. } => EventClass::Discard(actor),
        Event3p::DealerOpeningDahai { actor, .. } => EventClass::Discard(actor),
        _ => EventClass::Other,
    }
}

fn class_of_3p(event: &Event3p) -> (r: EventClass)
    ensures
        r == class_3p(*event),
{
    match event {
        Event3p::Nothing => EventClass::Nothing,
        Event3p::StartKyoku { .. } => EventClass::Start,
        Event3p::StartGame { .. } => EventClass::Start,
        Event3p::Dahai { actor, .. } => EventClass::Discard(*actor),
        Event3p::DealerOpeningDahai { actor, .. } => EventClass::Discard(*actor),
        _ => EventClass::Other,
    }
}

fn apply_3p(core: &mut MirrorCore, event: &Event3p) -> (r: Result<(), String>)
    requires
        is_sound(old(core)@),
        old(core).seats == 3,
        known_3p(old(core)@, *event),
    ensures
        stepped(r, final(core)@, step_3p(old(core)@, *event)),
{
    proof {
        reveal(step_3p);
        reveal(known_3p);
    }
    match event {
        Event3p::StartKyoku { .. } => apply_start_3p(core, event),
        Event3p::Tsumo { actor, pai } => core.tsumo(*actor, *pai),
        Event3p::DealerOpening { actor, pai } => core.open_dealer(*actor, *pai),
        Event3p::Dahai { actor, pai, tsumogiri } => core.dahai(*actor, *pai, *tsumogiri),
        Event3p::DealerOpeningDahai { actor, pai } => core.dealer_opening_dahai(*actor, *pai),
        Event3p::Pon { actor, target, pai, consumed } => core.pon(*actor, *target, *pai, *consumed),
        Event3p::Daiminkan { actor, target, pai, consumed } => core.daiminkan(*actor, *target, *pai, *consumed),
        Event3p::Kakan { actor, pai, consumed } => core.kakan(*actor, *pai, *consumed),
        Event3p::Ankan { actor, consumed } => core.ankan(*actor, *consumed),
        Event3p::Nukidora { actor, pai } => core.nukidora(*actor, *pai),
        Event3p::Dora { dora_marker } => core.dora(*dora_marker),
        Event3p::Reach { actor } => core.reach(*actor),
        Event3p::ReachAccepted { actor } => core.reach_accepted(*actor),
        Event3p::SeatForcedAutoplay { actor } => core.autoplay(*actor),
        Event3p::SeatResumed { actor } => core.autoplay(*actor),
        Event3p::Hora { .. } => apply_hora_3p(core, event),
        Event3p::Ryukyoku { deltas } => match deltas {
            Some(d) => core.ryukyoku(Some(d.as_slice())),
            None => core.ryukyoku(None),
        },
        Event3p::EndKyoku => core.end_kyoku(),
        Event3p::EndGame => core.end_game(),
        Event3p::StartGame { .. } => core.start_game(),
        Event3p::Nothing => Ok(()),
    }
}

fn apply_start_3p(core: &mut MirrorCore, event: &Event3p) -> (r: Result<(), String>)
    requires
        is_sound(old(core)@),
        old(core).seats == 3,
        *event is StartKyoku,
    ensures
        stepped(r, final(core)@, step_3p(old(core)@, *event)),
{
    proof {
        reveal(step_3p);
        reveal(known_3p);
    }
    if core.me as usize >= core.seats {
        let mut e = join3("invalid_mirror_seat: seat ", dec_usize(core.me as usize).as_str(), " is outside 0..");
        e.append(dec_usize(core.seats).as_str());
        return Err(e);
    }
    match event {
        Event3p::StartKyoku { bakaze, dora_marker, kyoku, honba, kyotaku, oya, scores, tehais } => {
            let start = KyokuStart {
                bakaze: *bakaze,
                dora_marker: *dora_marker,
                kyoku: *kyoku,
                honba: *honba,
                kyotaku: *kyotaku,
                oya: *oya,
                scores: clone_list(scores.as_slice()),
                my_hand: tehais[core.me as usize],
                tiles_left: LIVE_WALL_3P,
            };
            assert(start@ == start_of_3p(core@, *event));
            core.start_kyoku(start, true)
        },
        _ => Ok(()),
    }
}

fn apply_hora_3p(core: &mut MirrorCore, event: &Event3p) -> (r: Result<(), String>)
    requires
        is_sound(old(core)@),
        *event is Hora,
        known_3p(old(core)@, *event),
    ensures
        stepped(r, final(core)@, step_3p(old(core)@, *event)),
{
    proof {
        reveal(step_3p);
        reveal(known_3p);
    }
    match event {
        Event3p::Hora { actor, target, deltas, ura_markers, .. } => {
            let d: Option<&[i32]> = match deltas {
                Some(x) => Some(x.as_slice()),
                None => None,
            };
            let u: Option<&[Tile]> = match ura_markers {
                Some(x) => Some(x.as_slice()),
                None => None,
            };
            assert(slice_view(d) == crate::event::event3p::array_view3(*deltas));
            assert(tiles_view(u) == markers_view(*ura_markers));
            core.hora(*actor, *target, d, u)
        },
        _ => Ok(()),
    }
}

#[verifier::rlimit(40)]
fn take_in_3p(core: &mut MirrorCore, event: &Event3p) -> (r: Result<(), String>)
    requires
        is_sound(old(core)@),
        old(core).seats == 3,
        known_3p(old(core)@, *event),
    ensures
        is_sound(final(core)@),
        final(core).seats == 3,
        taken_in(old(core)@, step_3p(old(core)@, *event), final(core)@, r),
{
    let mut next = core.clone();
    match apply_3p(&mut next, event) {
        Ok(_) => {
            proof { events_keep_sound_3p(core@, *event); }
            if next.event_index < u64::MAX {
                next.event_index = next.event_index + 1;
            }
            *core = next;
            Ok(())
        },
        Err(detail) => {
            proof { issues_keep_sound(core@, "event_rejected"@, detail@); }
            core.reject("event_rejected", detail.clone());
            Err(detail)
        },
    }
}

fn repeats_last_3p(last: &Option<Event3p>, event: &Event3p) -> (r: bool)
    ensures
        r == (*last is Some && (*last)->0.spec_same(event)),
{
    match last {
        Some(e) => e.same(event),
        None => false,
    }
}

/// Every event of a three-player table keeps a mirror's state consistent.
#[verifier::rlimit(50)]
pub proof fn events_keep_sound_3p(c: MirrorFacts, event: Event3p)
    requires
        is_sound(c),
        c.seats == 3,
        step_3p(c, event) is Ok,
    ensures
        is_sound(step_3p(c, event)->Ok_0),
        step_3p(c, event)->Ok_0.seats == 3,
{
    reveal(step_3p);
    match event {
        Event3p::StartKyoku { .. } => {
            start_keeps_sound(c, start_of_3p(c, event), true);
        },
        Event3p::Tsumo { actor, pai } => { tsumo_keeps_sound(c, actor, pai); },
        Event3p::DealerOpening { actor, pai } => { opening_keeps_sound(c, actor, pai); },
        Event3p::Dahai { actor, pai, tsumogiri } => { dahai_keeps_sound(c, actor, pai, tsumogiri); },
        Event3p::DealerOpeningDahai { actor, pai } => { opening_dahai_keeps_sound(c, actor, pai); },
        Event3p::Pon { actor, target, pai, consumed } => { pon_keeps_sound(c, actor, target, pai, consumed); },
        Event3p::Daiminkan { actor, target, pai, consumed } => { daiminkan_keeps_sound(c, actor, target, pai, consumed); },
        Event3p::Kakan { actor, pai, consumed } => { kakan_keeps_sound(c, actor, pai, consumed); },
        Event3p::Ankan { actor, consumed } => { ankan_keeps_sound(c, actor, consumed); },
        Event3p::Nukidora { actor, pai } => { nukidora_keeps_sound(c, actor, pai); },
        Event3p::Dora { dora_marker } => { small_steps_keep_sound(c, 0, dora_marker); },
        Event3p::Reach { actor } => { small_steps_keep_sound(c, actor, Tile::unknown()); },
        Event3p::ReachAccepted { actor } => { small_steps_keep_sound(c, actor, Tile::unknown()); },
        Event3p::Hora { actor, target, deltas, ura_markers, .. } => {
            hora_keeps_sound(c, actor, target, crate::event::event3p::array_view3(deltas), markers_view(ura_markers));
        },
        Event3p::Ryukyoku { deltas } => {
            ryukyoku_keeps_sound(c, crate::event::event3p::array_view3(deltas));
        },
        Event3p::EndKyoku => { small_steps_keep_sound(c, 0, Tile::unknown()); },
        Event3p::EndGame => { small_steps_keep_sound(c, 0, Tile::unknown()); },
        Event3p::StartGame { .. } => { small_steps_keep_sound(c, 0, Tile::unknown()); },
        _ => {},
    }
}

impl Mirror3p {
    /// An empty mirror for a seat, under the default rules.
    pub fn new(me: u8) -> (r: Self)
        ensures
            r.core@ == new_core(3, me, RiichiRuleProfile::tenhou()),
            is_sound(r.core@),
            r.last_event is None,
    {
        Self::new_with_rule_profile(me, RiichiRuleProfile::default())
    }

    /// An empty mirror with explicit rules.
    pub fn new_with_rule_profile(me: u8, rule_profile: RiichiRuleProfile) -> (r: Self)
        ensures
            r.core@ == new_core(3, me, rule_profile),
            is_sound(r.core@),
            r.last_event is None,
    {
        Mirror3p { core: MirrorCore::new(3, me, rule_profile), last_event: None }
    }
}

impl MirrorCenter<Event3p> for Mirror3p {
    open spec fn facts(&self) -> MirrorFacts {
        self.core@
    }

    open spec fn last(&self) -> Option<Event3p> {
        self.last_event
    }

    open spec fn step(c: MirrorFacts, event: Event3p) -> Step {
        step_3p(c, event)
    }

    open spec fn step_known(c: MirrorFacts, event: Event3p) -> bool {
        c.seats == 3 && known_3p(c, event)
    }

    open spec fn class(event: Event3p) -> EventClass {
        class_3p(event)
    }

    open spec fn repeats(last: Option<Event3p>, event: Event3p) -> bool {
        last is Some && last->0.spec_same(&event)
    }

    open spec fn in_play(c: MirrorFacts, event: Event3p) -> bool {
        c.seats == 3 && is_core_in_play(c) && fits_3p(c, event)
    }

    fn can_feed(&self, event: &Event3p) -> (r: bool) {
        proof {
            if Self::in_play(self.core@, *event) {
                events_in_play_3p(self.core@, *event);
            }
        }
        self.core.seats == 3 && core_in_play(&self.core) && event_fits_3p(&self.core, event)
    }

    fn feed(&mut self, event: Event3p) -> (r: Result<(), String>) {
        let repeated = repeats_last_3p(&self.last_event, &event);
        match turn_away(&mut self.core, repeated, &class_of_3p(&event)) {
            Some(detail) => {
                return Err(detail);
            },
            None => {},
        }
        let r = take_in_3p(&mut self.core, &event);
        if r.is_ok() {
            self.last_event = Some(event);
        }
        r
    }

    fn quality(&self) -> (r: MirrorQuality) {
        self.core.quality
    }

    fn last_issue(&self) -> (r: Option<&MirrorIssue>) {
        if self.core.issues.len() > 0 {
            Some(&self.core.issues[self.core.issues.len() - 1])
        } else {
            None
        }
    }

    fn mark_degraded(&mut self, code: &'static str, detail: String) {
        proof { issues_keep_sound(self.core@, code@, detail@); }
        self.core.degrade(code, detail);
    }

    fn mirror_view(&self, seat: u8) -> (r: SeatView) {
        self.core.mirror_view(seat)
    }

    fn should_infer(&self, seat: u8) -> (r: bool) {
        self.core.should_infer(seat)
    }
}

} // verus!
