//! What every event keeps: a mirror's state stays consistent.

use vstd::prelude::*;
use crate::mahjong::calc::all_known;
use crate::mahjong::meld::Meld;
use crate::mahjong::tile::Tile;
use crate::maintainer::inventory::{observed, observed_all, Seen};
use crate::maintainer::mirror_rules::{
    after_opponent_discard, after_robbery, ankan_placed, called, caller_of, chi_step, committed, consumed_from,
    dahai_placed, dahai_step, daiminkan_step, declared, declared_by, discard_judged, discard_placed, discarder,
    dora_step, draw_placed, end_game_step, end_kyoku_step, hora_step, is_sound, kakan_placed, merged_ura, missed_ron,
    next_packet, no_ippatsu, nukidora_placed, opening_dahai_placed, opening_dahai_step, opening_discarder,
    opening_step, own_tile, pon_step, reach_accepted_step, reach_committed, reach_step, reach_withdrawn, rejected,
    robbery_step, ryukyoku_step, seen_drawn, seen_from, start_game_step, start_step, started, taken, tsumo_step,
    windows_closed, with_player, MirrorFacts, StartFacts,
};
use crate::maintainer::player::{discard_result, SeatState};
use crate::maintainer::reconcile::MirrorQuality;
use crate::maintainer::tileset::{lemma_first_of, without};
use crate::mahjong::rules::RiichiRuleProfile;

verus! {

pub proof fn lemma_without_known(hand: Seq<Tile>, t: Tile)
    requires
        all_known(hand),
    ensures
        all_known(without(hand, t)),
        without(hand, t).len() <= hand.len(),
{
    lemma_first_of(hand, t);
    let h = without(hand, t);
    assert forall|i: int| 0 <= i < h.len() implies (#[trigger] h[i]).is_known() by {
        let n = first_of_at(hand, t);
        if n < hand.len() {
            if i < n {
                assert(hand[i].is_known());
            } else {
                assert(hand[i + 1].is_known());
            }
        } else {
            assert(hand[i].is_known());
        }
    }
}

spec fn first_of_at(hand: Seq<Tile>, t: Tile) -> int {
    crate::maintainer::tileset::first_of(hand, t)
}

proof fn lemma_taken_known(hand: Seq<Tile>, tiles: Seq<Tile>)
    requires
        all_known(hand),
        taken(hand, tiles) is Ok,
    ensures
        all_known(taken(hand, tiles)->Ok_0),
    decreases tiles.len(),
{
    if tiles.len() > 0 {
        lemma_taken_known(hand, tiles.drop_last());
        lemma_without_known(taken(hand, tiles.drop_last())->Ok_0, tiles.last());
    }
}

proof fn lemma_pushed_known(hand: Seq<Tile>, t: Tile)
    requires
        all_known(hand),
        t.is_known(),
    ensures
        all_known(hand.push(t)),
{
    assert forall|i: int| 0 <= i < hand.push(t).len() implies (#[trigger] hand.push(t)[i]).is_known() by {
        if i < hand.len() {
            assert(hand[i].is_known());
        }
    }
}

proof fn lemma_dropped_known(hand: Seq<Tile>)
    requires
        all_known(hand),
        hand.len() > 0,
    ensures
        all_known(hand.drop_last()),
{
    assert forall|i: int| 0 <= i < hand.drop_last().len() implies (#[trigger] hand.drop_last()[i]).is_known() by {
        assert(hand[i].is_known());
    }
}

pub proof fn lemma_discard_known(s: SeatState, tile: Tile, tsumogiri: bool)
    requires
        all_known(s.hand),
        discard_result(s, tile, tsumogiri) is Ok,
    ensures
        all_known(discard_result(s, tile, tsumogiri)->Ok_0),
        discard_result(s, tile, tsumogiri)->Ok_0.len() <= s.hand.len(),
{
    lemma_dropped_known(s.hand);
    lemma_without_known(s.hand, tile);
}

/// Changing one seat without disturbing its place keeps a state consistent.
proof fn lemma_update_sound(c: MirrorFacts, i: int, q: SeatState)
    requires
        is_sound(c),
        0 <= i < c.players.len(),
        q.seat == c.players[i].seat,
        q.is_sanma == c.players[i].is_sanma,
        i == c.me && c.quality == MirrorQuality::Exact && all_known(c.players[i].hand) ==> all_known(q.hand),
    ensures
        is_sound(with_player(c, i, q)),
{
    let d = with_player(c, i, q);
    assert forall|j: int| 0 <= j < d.players.len() implies (#[trigger] d.players[j]).seat == j && d.players[j].is_sanma == (
    d.seats == 3) by {
        assert(c.players[j].seat == j);
    }
}

/// Closing a ron window keeps a state consistent.
proof fn lemma_committed_sound(c: MirrorFacts)
    requires
        is_sound(c),
    ensures
        is_sound(committed(c)),
{
    if c.pending_missed_ron {
        let q = missed_ron(c.players[c.me as int]);
        lemma_update_sound(c, c.me as int, q);
        let d = with_player(c, c.me as int, q);
        assert(committed(c) == MirrorFacts { pending_missed_ron: false, ..d });
    }
}

proof fn lemma_no_ippatsu_sound(c: MirrorFacts)
    requires
        is_sound(c),
    ensures
        is_sound(no_ippatsu(c)),
{
    let d = no_ippatsu(c);
    assert forall|j: int| 0 <= j < d.players.len() implies (#[trigger] d.players[j]).seat == j && d.players[j].is_sanma == (
    d.seats == 3) by {
        assert(c.players[j].seat == j);
    }
}

proof fn lemma_observed_shape(s: Seen, t: Tile, seats: usize, profile: RiichiRuleProfile)
    requires
        s.normal.len() == 34,
        s.red.len() == 3,
        observed(s, t, seats, profile) is Ok,
    ensures
        observed(s, t, seats, profile)->Ok_0.normal.len() == 34,
        observed(s, t, seats, profile)->Ok_0.red.len() == 3,
{
}

proof fn lemma_observed_all_shape(s: Seen, tiles: Seq<Tile>, seats: usize, profile: RiichiRuleProfile)
    requires
        s.normal.len() == 34,
        s.red.len() == 3,
        observed_all(s, tiles, seats, profile) is Ok,
    ensures
        observed_all(s, tiles, seats, profile)->Ok_0.normal.len() == 34,
        observed_all(s, tiles, seats, profile)->Ok_0.red.len() == 3,
    decreases tiles.len(),
{
    if tiles.len() > 0 {
        lemma_observed_all_shape(s, tiles.drop_last(), seats, profile);
        lemma_observed_shape(
            observed_all(s, tiles.drop_last(), seats, profile)->Ok_0, tiles.last(), seats, profile);
    }
}

proof fn lemma_seen_sound(c: MirrorFacts, known: Seen)
    requires
        is_sound(c),
        known.normal.len() == 34,
        known.red.len() == 3,
    ensures
        is_sound(MirrorFacts { known_tiles: known, ..c }),
{
}

/// Starting a hand gives a consistent state.
pub proof fn start_keeps_sound(c: MirrorFacts, s: StartFacts, sanma: bool)
    requires
        is_sound(c),
        s.scores.len() == c.seats,
        s.my_hand.len() == 13,
        start_step(c, s, sanma) is Ok,
    ensures
        is_sound(start_step(c, s, sanma)->Ok_0),
{
    let d = start_step(c, s, sanma)->Ok_0;
    let blank = crate::maintainer::inventory::nothing_seen();
    lemma_observed_all_shape(blank, s.my_hand, c.seats, c.rule_profile);
    lemma_observed_shape(
        observed_all(blank, s.my_hand, c.seats, c.rule_profile)->Ok_0, s.dora_marker, c.seats, c.rule_profile);
    assert forall|j: int| 0 <= j < d.players.len() implies (#[trigger] d.players[j]).seat == j && d.players[j].is_sanma == (
    d.seats == 3) by {}
}

/// Two states agree in what consistency looks at; the second may be of lower quality.
spec fn agrees(c: MirrorFacts, d: MirrorFacts) -> bool {
    &&& d.seats == c.seats && d.me == c.me && d.scores == c.scores && d.dora_indicators == c.dora_indicators
    &&& d.known_tiles == c.known_tiles && d.players == c.players && d.started == c.started && d.oya == c.oya
    &&& d.turn == c.turn && d.rule_profile == c.rule_profile && d.last_discard == c.last_discard
    &&& d.pending_robbery == c.pending_robbery && d.pending_reach == c.pending_reach
    &&& d.pending_missed_ron == c.pending_missed_ron
    &&& d.quality == MirrorQuality::Exact ==> c.quality == MirrorQuality::Exact
}

proof fn lemma_agrees_sound(c: MirrorFacts, d: MirrorFacts)
    requires
        is_sound(c),
        agrees(c, d),
    ensures
        is_sound(d),
{
    assert forall|j: int| 0 <= j < d.players.len() implies (#[trigger] d.players[j]).seat == j && d.players[j].is_sanma == (
    d.seats == 3) by {
        assert(c.players[j].seat == j);
    }
}

proof fn lemma_windows_sound(c: MirrorFacts)
    requires
        is_sound(c),
    ensures
        is_sound(windows_closed(c)),
{
    lemma_committed_sound(c);
    let d = committed(c);
    if d.pending_robbery is Some {
        lemma_no_ippatsu_sound(MirrorFacts { pending_robbery: None, ..d });
    }
}

proof fn lemma_draw_placed_sound(c: MirrorFacts, actor: u8, t: Tile)
    requires
        is_sound(c),
        c.started,
        actor < c.seats,
        actor == c.me && c.quality == MirrorQuality::Exact ==> t.is_known(),
    ensures
        is_sound(draw_placed(c, actor, t)),
{
    let p = c.players[actor as int];
    let q = SeatState { hand: p.hand.push(t), drawn_tile: Some(t), ..p };
    if actor == c.me && t.is_known() && all_known(p.hand) {
        lemma_pushed_known(p.hand, t);
    }
    lemma_update_sound(c, actor as int, q);
    let d = with_player(c, actor as int, q);
    assert(draw_placed(c, actor, t) == MirrorFacts { turn: actor, last_discard: None, ..d });
}

/// A draw keeps a state consistent.
pub proof fn tsumo_keeps_sound(c: MirrorFacts, actor: u8, pai: Tile)
    requires
        is_sound(c),
        tsumo_step(c, actor, pai) is Ok,
    ensures
        is_sound(tsumo_step(c, actor, pai)->Ok_0),
{
    let known = seen_drawn(c, actor, pai)->Ok_0;
    if actor == c.me {
        lemma_observed_shape(c.known_tiles, pai, c.seats, c.rule_profile);
    }
    lemma_seen_sound(c, known);
    let c0 = MirrorFacts { known_tiles: known, ..c };
    lemma_windows_sound(c0);
    let c2 = windows_closed(c0);
    let t = own_tile(c, actor, pai);
    let d = tsumo_step(c, actor, pai)->Ok_0;
    if actor == c.me && !pai.is_known() {
        let low = MirrorFacts { quality: MirrorQuality::Degraded, ..c2 };
        lemma_agrees_sound(c2, low);
        lemma_draw_placed_sound(low, actor, t);
        assert(agrees(draw_placed(low, actor, t), d));
        lemma_agrees_sound(draw_placed(low, actor, t), d);
    } else {
        lemma_draw_placed_sound(c2, actor, t);
        assert(agrees(draw_placed(c2, actor, t), d));
        lemma_agrees_sound(draw_placed(c2, actor, t), d);
    }
}

/// The dealer's opening tile keeps a state consistent.
pub proof fn opening_keeps_sound(c: MirrorFacts, actor: u8, pai: Tile)
    requires
        is_sound(c),
        opening_step(c, actor, pai) is Ok,
    ensures
        is_sound(opening_step(c, actor, pai)->Ok_0),
{
    if actor == c.me {
        lemma_observed_shape(c.known_tiles, pai, c.seats, c.rule_profile);
    }
    let d = opening_step(c, actor, pai)->Ok_0;
    let p = c.players[actor as int];
    if actor == c.me && pai.is_known() && all_known(p.hand) {
        lemma_pushed_known(p.hand, pai);
    }
    assert forall|j: int| 0 <= j < d.players.len() implies (#[trigger] d.players[j]).seat == j && d.players[j].is_sanma == (
    d.seats == 3) by {
        assert(c.players[j].seat == j);
    }
    if d.quality == MirrorQuality::Exact && actor != c.me {
        assert(d.players[c.me as int] == c.players[c.me as int]);
    }
}

proof fn lemma_seen_from_shape(c: MirrorFacts, actor: u8, tiles: Seq<Tile>)
    requires
        is_sound(c),
        seen_from(c, actor, tiles) is Ok,
    ensures
        seen_from(c, actor, tiles)->Ok_0.normal.len() == 34,
        seen_from(c, actor, tiles)->Ok_0.red.len() == 3,
{
    if actor != c.me {
        lemma_observed_all_shape(c.known_tiles, tiles, c.seats, c.rule_profile);
    }
}

proof fn lemma_window_opened_sound(c: MirrorFacts, open: bool)
    requires
        is_sound(c),
        c.players.len() > 0,
    ensures
        is_sound(MirrorFacts { pending_missed_ron: open, ..c }),
{
    let d = MirrorFacts { pending_missed_ron: open, ..c };
    assert forall|j: int| 0 <= j < d.players.len() implies (#[trigger] d.players[j]).seat == j && d.players[j].is_sanma == (
    d.seats == 3) by {
        assert(c.players[j].seat == j);
    }
}

proof fn lemma_after_opponent_sound(c: MirrorFacts, pai: Tile)
    requires
        is_sound(c),
        c.players.len() > 0,
    ensures
        is_sound(after_opponent_discard(c, pai)),
{
    lemma_committed_sound(c);
    lemma_window_opened_sound(committed(c), true);
}

proof fn lemma_reach_committed_sound(c: MirrorFacts, actor: u8)
    requires
        is_sound(c),
        actor < c.players.len(),
    ensures
        is_sound(reach_committed(c, actor)),
{
    if declared_by(c, actor) {
        let p = c.players[actor as int];
        let q = SeatState { riichi: true, double_riichi: c.pending_reach->0.double_riichi, ippatsu: true, ..p };
        lemma_update_sound(c, actor as int, q);
    }
}

proof fn lemma_judged_sound(c: MirrorFacts, actor: u8, pai: Tile)
    requires
        is_sound(c),
        actor < c.players.len(),
    ensures
        is_sound(discard_judged(c, actor, pai)),
{
    lemma_after_opponent_sound(c, pai);
    lemma_window_opened_sound(c, false);
    let d = if actor == c.me { MirrorFacts { pending_missed_ron: false, ..c } } else { after_opponent_discard(c, pai) };
    lemma_reach_committed_sound(d, actor);
}

proof fn lemma_placed_sound(c: MirrorFacts, actor: u8, pai: Tile, p: SeatState, known: Seen)
    requires
        is_sound(c),
        c.started,
        actor < c.seats,
        known.normal.len() == 34,
        known.red.len() == 3,
        p.seat == c.players[actor as int].seat,
        p.is_sanma == c.players[actor as int].is_sanma,
        actor == c.me && all_known(c.players[actor as int].hand) ==> all_known(p.hand),
    ensures
        is_sound(discard_placed(c, actor, pai, p, known)),
{
    let q = if declared_by(c, actor) { p } else { SeatState { ippatsu: false, ..p } };
    lemma_update_sound(c, actor as int, q);
}

/// A discard keeps a state consistent.
pub proof fn dahai_keeps_sound(c: MirrorFacts, actor: u8, pai: Tile, tsumogiri: bool)
    requires
        is_sound(c),
        dahai_step(c, actor, pai, tsumogiri) is Ok,
    ensures
        is_sound(dahai_step(c, actor, pai, tsumogiri)->Ok_0),
        is_sound(dahai_placed(c, actor, pai, tsumogiri)->Ok_0),
{
    let known = seen_from(c, actor, seq![pai])->Ok_0;
    lemma_seen_from_shape(c, actor, seq![pai]);
    let p = discarder(c, actor, pai, tsumogiri)->Ok_0;
    if actor == c.me && all_known(c.players[actor as int].hand) {
        lemma_discard_known(c.players[actor as int], pai, tsumogiri);
    }
    lemma_placed_sound(c, actor, pai, p, known);
    lemma_judged_sound(discard_placed(c, actor, pai, p, known), actor, pai);
}

/// The dealer's opening discard keeps a state consistent.
pub proof fn opening_dahai_keeps_sound(c: MirrorFacts, actor: u8, pai: Tile)
    requires
        is_sound(c),
        opening_dahai_step(c, actor, pai) is Ok,
    ensures
        is_sound(opening_dahai_step(c, actor, pai)->Ok_0),
        is_sound(opening_dahai_placed(c, actor, pai)->Ok_0),
{
    let known = seen_from(c, actor, seq![pai])->Ok_0;
    lemma_seen_from_shape(c, actor, seq![pai]);
    let p = opening_discarder(c, actor, pai)->Ok_0;
    if actor == c.me && all_known(c.players[actor as int].hand) {
        lemma_without_known(c.players[actor as int].hand, pai);
    }
    lemma_placed_sound(c, actor, pai, p, known);
    lemma_judged_sound(discard_placed(c, actor, pai, p, known), actor, pai);
}

proof fn lemma_consumed(c: MirrorFacts, actor: u8, tiles: Seq<Tile>)
    requires
        consumed_from(c, actor, tiles) is Ok,
    ensures
        consumed_from(c, actor, tiles)->Ok_0.seat == c.players[actor as int].seat,
        consumed_from(c, actor, tiles)->Ok_0.is_sanma == c.players[actor as int].is_sanma,
        actor == c.me && all_known(c.players[actor as int].hand) ==> all_known(consumed_from(c, actor, tiles)->Ok_0.hand),
{
    if actor == c.me && all_known(c.players[actor as int].hand) {
        lemma_taken_known(c.players[actor as int].hand, tiles);
    }
}

proof fn lemma_called_sound(c: MirrorFacts, actor: u8, target: u8, tiles: Seq<Tile>, meld: Meld, forbidden: Seq<usize>, kan: bool, known: Seen)
    requires
        is_sound(c),
        c.started,
        actor < c.seats,
        target < c.seats,
        known.normal.len() == 34,
        known.red.len() == 3,
        called(c, actor, target, tiles, meld, forbidden, kan, known) is Ok,
    ensures
        is_sound(called(c, actor, target, tiles, meld, forbidden, kan, known)->Ok_0),
{
    lemma_seen_sound(c, known);
    let c0 = MirrorFacts { known_tiles: known, ..c };
    lemma_committed_sound(c0);
    let d = committed(c0);
    lemma_consumed(d, actor, tiles);
    let caller = caller_of(d, actor, tiles, meld, forbidden, kan)->Ok_0;
    lemma_update_sound(d, actor as int, caller);
    let e = with_player(d, actor as int, caller);
    let q = crate::maintainer::player::marked_called(e.players[target as int]);
    lemma_update_sound(e, target as int, q);
    let f = with_player(e, target as int, q);
    let g = MirrorFacts {
        turn: actor,
        last_discard: None,
        any_call: true,
        pending_rinshan_draw: kan || f.pending_rinshan_draw,
        last_draw_was_rinshan: false,
        ..f
    };
    assert(is_sound(g));
    lemma_no_ippatsu_sound(g);
    assert(called(c, actor, target, tiles, meld, forbidden, kan, known)->Ok_0 == no_ippatsu(g));
}

/// A chi keeps a state consistent.
pub proof fn chi_keeps_sound(c: MirrorFacts, actor: u8, target: u8, pai: Tile, consumed: [Tile; 2])
    requires
        is_sound(c),
        chi_step(c, actor, target, pai, consumed) is Ok,
    ensures
        is_sound(chi_step(c, actor, target, pai, consumed)->Ok_0),
{
    lemma_seen_from_shape(c, actor, consumed@);
    let known = seen_from(c, actor, consumed@)->Ok_0;
    let a = consumed@[0];
    let b = consumed@[1];
    lemma_called_sound(
        c, actor, target, consumed@,
        Meld::Chi { tiles: crate::maintainer::mirror_rules::in_kind_order(a, b, pai), called: pai, from: target },
        if c.rule_profile.kuikae_forbidden { crate::maintainer::tileset::forbidden_after_chi(pai, a, b) } else { Seq::empty() },
        false, known);
}

/// A pon keeps a state consistent.
pub proof fn pon_keeps_sound(c: MirrorFacts, actor: u8, target: u8, pai: Tile, consumed: [Tile; 2])
    requires
        is_sound(c),
        pon_step(c, actor, target, pai, consumed) is Ok,
    ensures
        is_sound(pon_step(c, actor, target, pai, consumed)->Ok_0),
{
    lemma_seen_from_shape(c, actor, consumed@);
    let known = seen_from(c, actor, consumed@)->Ok_0;
    lemma_called_sound(
        c, actor, target, consumed@, Meld::Pon { tile: pai.deaka(), called: pai, consumed, from: target },
        if c.rule_profile.kuikae_forbidden { seq![pai.kind()] } else { Seq::empty() }, false, known);
}

/// An open kan keeps a state consistent.
pub proof fn daiminkan_keeps_sound(c: MirrorFacts, actor: u8, target: u8, pai: Tile, consumed: [Tile; 3])
    requires
        is_sound(c),
        daiminkan_step(c, actor, target, pai, consumed) is Ok,
    ensures
        is_sound(daiminkan_step(c, actor, target, pai, consumed)->Ok_0),
{
    lemma_seen_from_shape(c, actor, consumed@);
    let known = seen_from(c, actor, consumed@)->Ok_0;
    lemma_called_sound(
        c, actor, target, consumed@, Meld::Daiminkan { tile: pai.deaka(), called: pai, from: target }, Seq::empty(), true,
        known);
}

proof fn lemma_robbery_sound(c: MirrorFacts)
    requires
        is_sound(c),
        c.players.len() > 0,
    ensures
        is_sound(after_robbery(c)),
{
    lemma_committed_sound(c);
}

proof fn lemma_declared_sound(c: MirrorFacts, actor: u8, tiles: Seq<Tile>, melds: Seq<Meld>, known: Seen, robbery: crate::maintainer::action::PendingRobbery, closes: bool)
    requires
        is_sound(c),
        c.started,
        actor < c.seats,
        robbery.actor == actor,
        known.normal.len() == 34,
        known.red.len() == 3,
        consumed_from(c, actor, tiles) is Ok,
    ensures
        is_sound(
            declared(c, actor, SeatState { melds, ..consumed_from(c, actor, tiles)->Ok_0 }, known, robbery, closes),
        ),
{
    lemma_consumed(c, actor, tiles);
    let q = SeatState { melds, ..consumed_from(c, actor, tiles)->Ok_0 };
    lemma_update_sound(c, actor as int, q);
}

/// An added kan keeps a state consistent.
pub proof fn kakan_keeps_sound(c: MirrorFacts, actor: u8, pai: Tile, consumed: [Tile; 3])
    requires
        is_sound(c),
        kakan_placed(c, actor, pai, consumed) is Ok,
    ensures
        is_sound(kakan_placed(c, actor, pai, consumed)->Ok_0),
        is_sound(robbery_step(kakan_placed(c, actor, pai, consumed))->Ok_0),
{
    lemma_seen_from_shape(c, actor, seq![pai]);
    let known = seen_from(c, actor, seq![pai])->Ok_0;
    let p = consumed_from(c, actor, seq![pai])->Ok_0;
    let at = crate::maintainer::mirror_rules::pon_at(c.players[actor as int].melds, pai.kind());
    let d = kakan_placed(c, actor, pai, consumed)->Ok_0;
    lemma_declared_sound(
        c, actor, seq![pai], p.melds.update(at, Meld::Kakan { tile: pai.deaka(), added: pai }), known,
        d.pending_robbery->0, false);
    lemma_robbery_sound(d);
}

/// A closed kan keeps a state consistent.
pub proof fn ankan_keeps_sound(c: MirrorFacts, actor: u8, consumed: [Tile; 4])
    requires
        is_sound(c),
        ankan_placed(c, actor, consumed) is Ok,
    ensures
        is_sound(ankan_placed(c, actor, consumed)->Ok_0),
        is_sound(robbery_step(ankan_placed(c, actor, consumed))->Ok_0),
{
    lemma_seen_from_shape(c, actor, consumed@);
    let known = seen_from(c, actor, consumed@)->Ok_0;
    let p = consumed_from(c, actor, consumed@)->Ok_0;
    let d = ankan_placed(c, actor, consumed)->Ok_0;
    lemma_declared_sound(
        c, actor, consumed@, p.melds.push(Meld::Ankan { tile: consumed@[0].deaka() }), known, d.pending_robbery->0, true);
    lemma_robbery_sound(d);
}

/// Setting a North aside keeps a state consistent.
pub proof fn nukidora_keeps_sound(c: MirrorFacts, actor: u8, pai: Tile)
    requires
        is_sound(c),
        nukidora_placed(c, actor, pai) is Ok,
    ensures
        is_sound(nukidora_placed(c, actor, pai)->Ok_0),
        is_sound(robbery_step(nukidora_placed(c, actor, pai))->Ok_0),
{
    lemma_seen_from_shape(c, actor, seq![pai]);
    let known = seen_from(c, actor, seq![pai])->Ok_0;
    let p = consumed_from(c, actor, seq![pai])->Ok_0;
    let d = nukidora_placed(c, actor, pai)->Ok_0;
    lemma_declared_sound(
        c, actor, seq![pai], p.melds.push(Meld::Nukidora { tile: pai.deaka() }), known, d.pending_robbery->0, true);
    lemma_robbery_sound(d);
}

/// Riichi, its acceptance and a dora indicator keep a state consistent.
pub proof fn small_steps_keep_sound(c: MirrorFacts, actor: u8, marker: Tile)
    requires
        is_sound(c),
    ensures
        reach_step(c, actor) is Ok ==> is_sound(reach_step(c, actor)->Ok_0),
        reach_accepted_step(c, actor) is Ok ==> is_sound(reach_accepted_step(c, actor)->Ok_0),
        dora_step(c, marker) is Ok ==> is_sound(dora_step(c, marker)->Ok_0),
        end_kyoku_step(c) is Ok ==> is_sound(end_kyoku_step(c)->Ok_0),
        end_game_step(c) is Ok ==> is_sound(end_game_step(c)->Ok_0),
        start_game_step(c) is Ok ==> is_sound(start_game_step(c)->Ok_0),
{
    if dora_step(c, marker) is Ok {
        lemma_observed_shape(c.known_tiles, marker, c.seats, c.rule_profile);
    }
}

/// A draw without a winner keeps a state consistent.
pub proof fn ryukyoku_keeps_sound(c: MirrorFacts, deltas: Option<Seq<i32>>)
    requires
        is_sound(c),
        ryukyoku_step(c, deltas) is Ok,
    ensures
        is_sound(ryukyoku_step(c, deltas)->Ok_0),
{
    let c0 = MirrorFacts { scores: crate::maintainer::mirror_rules::with_deltas(c.scores, deltas), ..c };
    assert(is_sound(c0));
    lemma_committed_sound(c0);
}

proof fn lemma_merged_shape(c: MirrorFacts, existing: Seq<Tile>, incoming: Option<Seq<Tile>>)
    requires
        is_sound(c),
        merged_ura(c, existing, incoming) is Ok,
    ensures
        merged_ura(c, existing, incoming)->Ok_0.1.normal.len() == 34,
        merged_ura(c, existing, incoming)->Ok_0.1.red.len() == 3,
{
    if incoming is Some && incoming->0.len() > 0 && existing.len() == 0 {
        lemma_observed_all_shape(c.known_tiles, incoming->0, c.seats, c.rule_profile);
    }
}

/// A win keeps a state consistent.
pub proof fn hora_keeps_sound(c: MirrorFacts, actor: u8, target: u8, deltas: Option<Seq<i32>>, ura: Option<Seq<Tile>>)
    requires
        is_sound(c),
        hora_step(c, actor, target, deltas, ura) is Ok,
    ensures
        is_sound(hora_step(c, actor, target, deltas, ura)->Ok_0),
{
    let p = next_packet(c, actor, target, ura)->Ok_0;
    assert(p.1.normal.len() == 34 && p.1.red.len() == 3) by {
        match c.terminal_packet {
            Some(crate::maintainer::mirror_rules::PacketFacts::Ron { ura_markers, .. }) => {
                lemma_merged_shape(c, ura_markers, ura);
            },
            _ => {
                lemma_merged_shape(c, Seq::empty(), ura);
            },
        }
    }
    if declared_by(c, target) {
        let q = SeatState { riichi: false, double_riichi: false, ippatsu: false, ..c.players[target as int] };
        lemma_update_sound(c, target as int, q);
    }
    assert(is_sound(reach_withdrawn(c, target)));
}

/// Refusing an event, and marking lost information, keep a state consistent.
pub proof fn issues_keep_sound(c: MirrorFacts, code: Seq<char>, detail: Seq<char>)
    requires
        is_sound(c),
    ensures
        is_sound(rejected(c, code, detail)),
        is_sound(crate::maintainer::mirror_rules::degraded(c, code, detail)),
{
}

} // verus!
