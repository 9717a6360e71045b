//! How long furiten lasts: a seat that passes on a ron is blocked until its next discard, and in
//! riichi for the rest of the hand.

use vstd::prelude::*;
use crate::event::event3p::{array_view3, Event3p};
use crate::event::event4p::{array_view4, Event4p};
use crate::event::same::markers_view;
use crate::mahjong::meld::Meld;
use crate::mahjong::tile::Tile;
use crate::maintainer::inventory::Seen;
use crate::maintainer::legal::{furiten_rules_out_ron, reactions, Response};
use crate::maintainer::mirror_rules::{
    ankan_placed, called, chi_step, committed, core_view, dahai_step, daiminkan_step, dora_step, hora_step,
    in_kind_order, is_blocked, is_sound, kakan_placed, nukidora_placed, opening_dahai_step, opening_step, pon_step,
    reach_accepted_step, reach_step, robbery_step, ryukyoku_step, seen_from, tsumo_step, MirrorFacts, Step,
};
use crate::maintainer::player::hand_waits;
use crate::maintainer::product::{step_3p, step_4p};
use crate::maintainer::tileset::forbidden_after_chi;

verus! {

/// The own seat is furiten for a while, or for the rest of the hand.
pub open spec fn has_passed(c: MirrorFacts) -> bool {
    c.players[c.me as int].temporary_furiten || c.players[c.me as int].riichi_furiten
}

/// What the own seat passed on still counts.
pub open spec fn furiten_lasts(c: MirrorFacts, d: MirrorFacts) -> bool {
    &&& d.me == c.me
    &&& d.players.len() == c.players.len()
    &&& c.players[c.me as int].temporary_furiten ==> d.players[d.me as int].temporary_furiten
    &&& c.players[c.me as int].riichi_furiten ==> d.players[d.me as int].riichi_furiten
}

/// A ron window that was open is open still, or was passed on.
pub open spec fn window_lasts(c: MirrorFacts, d: MirrorFacts) -> bool {
    c.pending_missed_ron ==> d.pending_missed_ron || has_passed(d)
}

/// A consistent state of a hand that has begun.
pub open spec fn has_hand(c: MirrorFacts) -> bool {
    is_sound(c) && c.players.len() > 0
}

/// The own seat's discard.
pub open spec fn is_own_discard_4p(c: MirrorFacts, event: Event4p) -> bool {
    match event {
        Event4p::Dahai { actor, .. } => actor == c.me,
        Event4p::DealerOpeningDahai { actor, .. } => actor == c.me,
        _ => false,
    }
}

/// The own seat's discard.
pub open spec fn is_own_discard_3p(c: MirrorFacts, event: Event3p) -> bool {
    match event {
        Event3p::Dahai { actor, .. } => actor == c.me,
        Event3p::DealerOpeningDahai { actor, .. } => actor == c.me,
        _ => false,
    }
}

proof fn lemma_called(
    c: MirrorFacts,
    actor: u8,
    target: u8,
    tiles: Seq<Tile>,
    meld: Meld,
    forbidden: Seq<usize>,
    kan: bool,
    known: Seen,
)
    requires
        has_hand(c),
        actor < c.seats,
        target < c.seats,
        called(c, actor, target, tiles, meld, forbidden, kan, known) is Ok,
    ensures
        furiten_lasts(c, called(c, actor, target, tiles, meld, forbidden, kan, known)->Ok_0),
        window_lasts(c, called(c, actor, target, tiles, meld, forbidden, kan, known)->Ok_0),
{
}

proof fn lemma_discard(c: MirrorFacts, actor: u8, pai: Tile, tsumogiri: bool)
    requires
        has_hand(c),
        dahai_step(c, actor, pai, tsumogiri) is Ok,
    ensures
        ({
            let d = dahai_step(c, actor, pai, tsumogiri)->Ok_0;
            if actor == c.me {
                after_own_discard(c, d)
            } else {
                furiten_lasts(c, d) && window_lasts(c, d)
            }
        }),
{
}

proof fn lemma_opening_discard(c: MirrorFacts, actor: u8, pai: Tile)
    requires
        has_hand(c),
        opening_dahai_step(c, actor, pai) is Ok,
    ensures
        ({
            let d = opening_dahai_step(c, actor, pai)->Ok_0;
            if actor == c.me {
                after_own_discard(c, d)
            } else {
                furiten_lasts(c, d) && window_lasts(c, d)
            }
        }),
{
}

/// After the own discard nothing is passed on but in riichi.
pub open spec fn after_own_discard(c: MirrorFacts, d: MirrorFacts) -> bool {
    &&& d.me == c.me
    &&& d.players.len() == c.players.len()
    &&& !d.players[d.me as int].temporary_furiten
    &&& d.players[d.me as int].riichi_furiten == c.players[c.me as int].riichi_furiten
    &&& !d.pending_missed_ron
}

proof fn lemma_robbery(c: MirrorFacts, placed: Step)
    requires
        has_hand(c),
        placed is Ok,
        furiten_lasts(c, placed->Ok_0),
        placed->Ok_0.pending_missed_ron == c.pending_missed_ron,
    ensures
        furiten_lasts(c, robbery_step(placed)->Ok_0),
        window_lasts(c, robbery_step(placed)->Ok_0),
{
}

proof fn lemma_tsumo(c: MirrorFacts, actor: u8, pai: Tile)
    requires
        has_hand(c),
        tsumo_step(c, actor, pai) is Ok,
    ensures
        furiten_lasts(c, tsumo_step(c, actor, pai)->Ok_0),
        window_lasts(c, tsumo_step(c, actor, pai)->Ok_0),
{
}

proof fn lemma_opening(c: MirrorFacts, actor: u8, pai: Tile)
    requires
        has_hand(c),
        opening_step(c, actor, pai) is Ok,
    ensures
        furiten_lasts(c, opening_step(c, actor, pai)->Ok_0),
        window_lasts(c, opening_step(c, actor, pai)->Ok_0),
{
}

proof fn lemma_chi(c: MirrorFacts, actor: u8, target: u8, pai: Tile, consumed: [Tile; 2])
    requires
        has_hand(c),
        chi_step(c, actor, target, pai, consumed) is Ok,
    ensures
        furiten_lasts(c, chi_step(c, actor, target, pai, consumed)->Ok_0),
        window_lasts(c, chi_step(c, actor, target, pai, consumed)->Ok_0),
{
    let a = consumed@[0];
    let b = consumed@[1];
    lemma_called(
        c,
        actor,
        target,
        consumed@,
        Meld::Chi { tiles: in_kind_order(a, b, pai), called: pai, from: target },
        if c.rule_profile.kuikae_forbidden { forbidden_after_chi(pai, a, b) } else { Seq::empty() },
        false,
        seen_from(c, actor, consumed@)->Ok_0,
    );
}

proof fn lemma_pon(c: MirrorFacts, actor: u8, target: u8, pai: Tile, consumed: [Tile; 2])
    requires
        has_hand(c),
        pon_step(c, actor, target, pai, consumed) is Ok,
    ensures
        furiten_lasts(c, pon_step(c, actor, target, pai, consumed)->Ok_0),
        window_lasts(c, pon_step(c, actor, target, pai, consumed)->Ok_0),
{
    lemma_called(
        c,
        actor,
        target,
        consumed@,
        Meld::Pon { tile: pai.deaka(), called: pai, consumed, from: target },
        if c.rule_profile.kuikae_forbidden { seq![pai.kind()] } else { Seq::empty() },
        false,
        seen_from(c, actor, consumed@)->Ok_0,
    );
}

proof fn lemma_daiminkan(c: MirrorFacts, actor: u8, target: u8, pai: Tile, consumed: [Tile; 3])
    requires
        has_hand(c),
        daiminkan_step(c, actor, target, pai, consumed) is Ok,
    ensures
        furiten_lasts(c, daiminkan_step(c, actor, target, pai, consumed)->Ok_0),
        window_lasts(c, daiminkan_step(c, actor, target, pai, consumed)->Ok_0),
{
    lemma_called(
        c,
        actor,
        target,
        consumed@,
        Meld::Daiminkan { tile: pai.deaka(), called: pai, from: target },
        Seq::empty(),
        true,
        seen_from(c, actor, consumed@)->Ok_0,
    );
}

proof fn lemma_kakan(c: MirrorFacts, actor: u8, pai: Tile, consumed: [Tile; 3])
    requires
        has_hand(c),
        robbery_step(kakan_placed(c, actor, pai, consumed)) is Ok,
    ensures
        furiten_lasts(c, robbery_step(kakan_placed(c, actor, pai, consumed))->Ok_0),
        window_lasts(c, robbery_step(kakan_placed(c, actor, pai, consumed))->Ok_0),
{
    lemma_robbery(c, kakan_placed(c, actor, pai, consumed));
}

proof fn lemma_ankan(c: MirrorFacts, actor: u8, consumed: [Tile; 4])
    requires
        has_hand(c),
        robbery_step(ankan_placed(c, actor, consumed)) is Ok,
    ensures
        furiten_lasts(c, robbery_step(ankan_placed(c, actor, consumed))->Ok_0),
        window_lasts(c, robbery_step(ankan_placed(c, actor, consumed))->Ok_0),
{
    lemma_robbery(c, ankan_placed(c, actor, consumed));
}

proof fn lemma_nukidora(c: MirrorFacts, actor: u8, pai: Tile)
    requires
        has_hand(c),
        robbery_step(nukidora_placed(c, actor, pai)) is Ok,
    ensures
        furiten_lasts(c, robbery_step(nukidora_placed(c, actor, pai))->Ok_0),
        window_lasts(c, robbery_step(nukidora_placed(c, actor, pai))->Ok_0),
{
    lemma_robbery(c, nukidora_placed(c, actor, pai));
}

/// Events that move no tiles.
proof fn lemma_quiet(c: MirrorFacts, actor: u8, marker: Tile)
    requires
        has_hand(c),
    ensures
        dora_step(c, marker) is Ok ==> furiten_lasts(c, dora_step(c, marker)->Ok_0) && window_lasts(
            c,
            dora_step(c, marker)->Ok_0,
        ),
        reach_step(c, actor) is Ok ==> furiten_lasts(c, reach_step(c, actor)->Ok_0) && window_lasts(
            c,
            reach_step(c, actor)->Ok_0,
        ),
        reach_accepted_step(c, actor) is Ok ==> furiten_lasts(c, reach_accepted_step(c, actor)->Ok_0) && window_lasts(
            c,
            reach_accepted_step(c, actor)->Ok_0,
        ),
{
}

proof fn lemma_ryukyoku(c: MirrorFacts, deltas: Option<Seq<i32>>)
    requires
        has_hand(c),
        ryukyoku_step(c, deltas) is Ok,
    ensures
        furiten_lasts(c, ryukyoku_step(c, deltas)->Ok_0),
        window_lasts(c, ryukyoku_step(c, deltas)->Ok_0),
{
}

proof fn lemma_hora(c: MirrorFacts, actor: u8, target: u8, deltas: Option<Seq<i32>>, ura: Option<Seq<Tile>>)
    requires
        has_hand(c),
        hora_step(c, actor, target, deltas, ura) is Ok,
    ensures
        furiten_lasts(c, hora_step(c, actor, target, deltas, ura)->Ok_0),
{
}

/// Whatever happens in a hand but a discard of the seat's own, what it passed on still counts; and
/// but for a win, a ron window is left open or counts as passed on.
pub proof fn furiten_lasts_until_the_next_discard_4p(c: MirrorFacts, event: Event4p)
    requires
        has_hand(c),
        step_4p(c, event) is Ok,
        !(event is StartKyoku),
        !is_own_discard_4p(c, event),
    ensures
        furiten_lasts(c, step_4p(c, event)->Ok_0),
        !(event is Hora) ==> window_lasts(c, step_4p(c, event)->Ok_0),
{
    reveal(step_4p);
    match event {
        Event4p::Dahai { actor, pai, tsumogiri } => lemma_discard(c, actor, pai, tsumogiri),
        Event4p::DealerOpeningDahai { actor, pai } => lemma_opening_discard(c, actor, pai),
        Event4p::Tsumo { actor, pai } => lemma_tsumo(c, actor, pai),
        Event4p::DealerOpening { actor, pai } => lemma_opening(c, actor, pai),
        Event4p::Chi { actor, target, pai, consumed } => lemma_chi(c, actor, target, pai, consumed),
        Event4p::Pon { actor, target, pai, consumed } => lemma_pon(c, actor, target, pai, consumed),
        Event4p::Daiminkan { actor, target, pai, consumed } => lemma_daiminkan(c, actor, target, pai, consumed),
        Event4p::Kakan { actor, pai, consumed } => lemma_kakan(c, actor, pai, consumed),
        Event4p::Ankan { actor, consumed } => lemma_ankan(c, actor, consumed),
        Event4p::Dora { dora_marker } => lemma_quiet(c, 0, dora_marker),
        Event4p::Reach { actor } => lemma_quiet(c, actor, Tile::unknown()),
        Event4p::ReachAccepted { actor } => lemma_quiet(c, actor, Tile::unknown()),
        Event4p::Hora { actor, target, deltas, ura_markers, .. } => lemma_hora(
            c,
            actor,
            target,
            array_view4(deltas),
            markers_view(ura_markers),
        ),
        Event4p::Ryukyoku { deltas } => lemma_ryukyoku(c, array_view4(deltas)),
        _ => {},
    }
}

/// Whatever happens in a hand but a discard of the seat's own, what it passed on still counts; and
/// but for a win, a ron window is left open or counts as passed on.
pub proof fn furiten_lasts_until_the_next_discard_3p(c: MirrorFacts, event: Event3p)
    requires
        has_hand(c),
        step_3p(c, event) is Ok,
        !(event is StartKyoku),
        !is_own_discard_3p(c, event),
    ensures
        furiten_lasts(c, step_3p(c, event)->Ok_0),
        !(event is Hora) ==> window_lasts(c, step_3p(c, event)->Ok_0),
{
    reveal(step_3p);
    match event {
        Event3p::Dahai { actor, pai, tsumogiri } => lemma_discard(c, actor, pai, tsumogiri),
        Event3p::DealerOpeningDahai { actor, pai } => lemma_opening_discard(c, actor, pai),
        Event3p::Tsumo { actor, pai } => lemma_tsumo(c, actor, pai),
        Event3p::DealerOpening { actor, pai } => lemma_opening(c, actor, pai),
        Event3p::Pon { actor, target, pai, consumed } => lemma_pon(c, actor, target, pai, consumed),
        Event3p::Daiminkan { actor, target, pai, consumed } => lemma_daiminkan(c, actor, target, pai, consumed),
        Event3p::Kakan { actor, pai, consumed } => lemma_kakan(c, actor, pai, consumed),
        Event3p::Ankan { actor, consumed } => lemma_ankan(c, actor, consumed),
        Event3p::Nukidora { actor, pai } => lemma_nukidora(c, actor, pai),
        Event3p::Dora { dora_marker } => lemma_quiet(c, 0, dora_marker),
        Event3p::Reach { actor } => lemma_quiet(c, actor, Tile::unknown()),
        Event3p::ReachAccepted { actor } => lemma_quiet(c, actor, Tile::unknown()),
        Event3p::Hora { actor, target, deltas, ura_markers, .. } => lemma_hora(
            c,
            actor,
            target,
            array_view3(deltas),
            markers_view(ura_markers),
        ),
        Event3p::Ryukyoku { deltas } => lemma_ryukyoku(c, array_view3(deltas)),
        _ => {},
    }
}

/// A discard of the seat's own ends temporary furiten; furiten in riichi stays.
pub proof fn own_discards_end_temporary_furiten(c: MirrorFacts, four: Event4p, three: Event3p)
    requires
        has_hand(c),
    ensures
        is_own_discard_4p(c, four) && step_4p(c, four) is Ok ==> after_own_discard(c, step_4p(c, four)->Ok_0),
        is_own_discard_3p(c, three) && step_3p(c, three) is Ok ==> after_own_discard(c, step_3p(c, three)->Ok_0),
{
    reveal(step_4p);
    reveal(step_3p);
    if is_own_discard_4p(c, four) && step_4p(c, four) is Ok {
        match four {
            Event4p::Dahai { actor, pai, tsumogiri } => lemma_discard(c, actor, pai, tsumogiri),
            Event4p::DealerOpeningDahai { actor, pai } => lemma_opening_discard(c, actor, pai),
            _ => {},
        }
    }
    if is_own_discard_3p(c, three) && step_3p(c, three) is Ok {
        match three {
            Event3p::Dahai { actor, pai, tsumogiri } => lemma_discard(c, actor, pai, tsumogiri),
            Event3p::DealerOpeningDahai { actor, pai } => lemma_opening_discard(c, actor, pai),
            _ => {},
        }
    }
}

/// Another seat's discard of a tile that the own hand waits for opens a ron window, with or
/// without a yaku, unless the seat is furiten.
pub proof fn waited_discards_open_a_window(c: MirrorFacts, actor: u8, pai: Tile, tsumogiri: bool)
    requires
        has_hand(c),
        actor != c.me,
        dahai_step(c, actor, pai, tsumogiri) is Ok,
    ensures
        ({
            let me = committed(c).players[c.me as int];
            !is_blocked(me) && hand_waits(me.hand, me.melds, me.is_sanma).contains(pai.kind())
        }) ==> dahai_step(c, actor, pai, tsumogiri)->Ok_0.pending_missed_ron,
{
}

/// While what a seat passed on counts, it is offered no ron.
pub proof fn passed_rons_block_ron(c: MirrorFacts)
    requires
        has_hand(c),
        has_passed(c),
    ensures
        !reactions(core_view(c, c.me)).contains(Response::Ron),
{
    furiten_rules_out_ron(core_view(c, c.me));
}

} // verus!
