//! What the events of a hand do to the points of the seats.

use vstd::prelude::*;
use crate::event::event3p::{array_view3, Event3p};
use crate::event::event4p::{array_view4, Event4p};
use crate::event::same::markers_view;
use crate::mahjong::tile::Tile;
use crate::maintainer::mirror_rules::{
    ankan_placed, chi_step, dahai_step, daiminkan_step, dora_step, hora_step, is_sound, kakan_placed, nukidora_placed,
    opening_dahai_step, opening_step, pon_step, reach_accepted_step, reach_step, robbery_step, ryukyoku_step, taken,
    tsumo_step, MirrorFacts,
};
use crate::maintainer::player::SeatState;
use crate::maintainer::product::{step_3p, step_4p};
use crate::maintainer::tileset::without;

verus! {

// Points.

/// Each seat's points change by its own delta, and not at all without deltas.
pub open spec fn paid(before: Seq<i32>, deltas: Option<Seq<i32>>, after: Seq<i32>) -> bool {
    &&& after.len() == before.len()
    &&& forall|i: int|
        0 <= i < before.len() ==> #[trigger] after[i] == before[i] + (match deltas {
            Some(d) => d[i] as int,
            None => 0,
        })
}

/// Points with these deltas are still numbers of the range.
pub open spec fn in_range(before: Seq<i32>, deltas: Option<Seq<i32>>) -> bool {
    deltas is Some ==> forall|i: int|
        0 <= i < before.len() ==> -0x8000_0000 <= #[trigger] before[i] + deltas->0[i] <= 0x7fff_ffff
}

/// Hands, melds and discards of all seats, the indicators and the wall stay as they are.
pub open spec fn tiles_stay(c: MirrorFacts, d: MirrorFacts) -> bool {
    &&& d.seats == c.seats && d.me == c.me && d.oya == c.oya
    &&& d.dora_indicators == c.dora_indicators
    &&& d.tiles_left == c.tiles_left
    &&& d.players.len() == c.players.len()
    &&& forall|i: int| 0 <= i < c.players.len() ==> seat_stays(#[trigger] c.players[i], d.players[i])
}

/// The tiles of a seat stay as they are.
pub open spec fn seat_stays(p: SeatState, q: SeatState) -> bool {
    q.hand == p.hand && q.melds == p.melds && q.discards == p.discards && q.drawn_tile == p.drawn_tile && q.seat == p.seat
}

/// A draw of the hand is taken exactly while a hand is played, with a delta for each seat or none.
/// Each seat's points change by its delta; nobody pays or collects without deltas. The hand is over,
/// and no tile moves.
pub proof fn draws_pay_their_deltas(c: MirrorFacts, deltas: Option<Seq<i32>>)
    requires
        is_sound(c),
        deltas is Some ==> deltas->0.len() == c.seats ==> in_range(c.scores, deltas),
    ensures
        ryukyoku_step(c, deltas) is Ok <==> c.started && !c.terminal && (deltas is Some ==> deltas->0.len() == c.seats),
        ryukyoku_step(c, deltas) is Ok ==> {
            let d = ryukyoku_step(c, deltas)->Ok_0;
            &&& paid(c.scores, deltas, d.scores)
            &&& d.started && d.terminal
            &&& d.last_discard is None && d.pending_robbery is None && d.terminal_packet is None && !d.pending_missed_ron
            &&& d.kyotaku == c.kyotaku && d.honba == c.honba && d.kyoku == c.kyoku
            &&& tiles_stay(c, d)
        },
{
}

/// A win that is taken pays each seat its delta; a second winner's deltas come on top of the first's.
/// The hand is over, no tile moves, and the sticks stay as counted.
pub proof fn wins_pay_their_deltas(c: MirrorFacts, actor: u8, target: u8, deltas: Option<Seq<i32>>, ura: Option<Seq<Tile>>)
    requires
        is_sound(c),
        deltas is Some && deltas->0.len() == c.seats ==> in_range(c.scores, deltas),
        hora_step(c, actor, target, deltas, ura) is Ok,
    ensures
        ({
            let d = hora_step(c, actor, target, deltas, ura)->Ok_0;
            &&& c.started && actor < c.seats && target < c.seats
            &&& deltas is Some ==> deltas->0.len() == c.seats
            &&& paid(c.scores, deltas, d.scores)
            &&& d.started && d.terminal && !d.pending_missed_ron
            &&& d.kyotaku == c.kyotaku && d.honba == c.honba
            &&& tiles_stay(c, d)
        }),
{
}

/// An accepted riichi costs its seat a thousand points, which become a stick on the table; no other
/// seat's points change. It is taken exactly after the discard that declared it, from a seat that
/// has the points.
pub proof fn accepted_riichi_pays_a_stick(c: MirrorFacts, actor: u8)
    requires
        is_sound(c),
        c.kyotaku < 255,
    ensures
        reach_accepted_step(c, actor) is Ok <==> {
            &&& c.started && !c.terminal && actor < c.seats
            &&& c.pending_reach is Some && c.pending_reach->0.actor == actor
            &&& c.last_discard is Some && (c.last_discard->0).0 == actor
            &&& c.scores[actor as int] >= 1000
        },
        reach_accepted_step(c, actor) is Ok ==> {
            let d = reach_accepted_step(c, actor)->Ok_0;
            &&& d.scores.len() == c.scores.len()
            &&& forall|i: int|
                0 <= i < c.scores.len() ==> #[trigger] d.scores[i] == if i == actor { c.scores[i] - 1000 } else { c.scores[i] as int }
            &&& d.kyotaku == c.kyotaku + 1
            &&& d.pending_reach is None
            &&& d.last_discard == c.last_discard && !d.terminal
            &&& tiles_stay(c, d)
        },
{
}

proof fn lemma_calls_keep_points(c: MirrorFacts, actor: u8, target: u8, pai: Tile, two: [Tile; 2], three: [Tile; 3], four: [Tile; 4])
    ensures
        chi_step(c, actor, target, pai, two) is Ok ==> same_points(c, chi_step(c, actor, target, pai, two)->Ok_0),
        pon_step(c, actor, target, pai, two) is Ok ==> same_points(c, pon_step(c, actor, target, pai, two)->Ok_0),
        daiminkan_step(c, actor, target, pai, three) is Ok ==> same_points(
            c,
            daiminkan_step(c, actor, target, pai, three)->Ok_0,
        ),
        robbery_step(kakan_placed(c, actor, pai, three)) is Ok ==> same_points(
            c,
            robbery_step(kakan_placed(c, actor, pai, three))->Ok_0,
        ),
        robbery_step(ankan_placed(c, actor, four)) is Ok ==> same_points(c, robbery_step(ankan_placed(c, actor, four))->Ok_0),
        robbery_step(nukidora_placed(c, actor, pai)) is Ok ==> same_points(
            c,
            robbery_step(nukidora_placed(c, actor, pai))->Ok_0,
        ),
{
}

proof fn lemma_turns_keep_points(c: MirrorFacts, actor: u8, pai: Tile, tsumogiri: bool)
    ensures
        tsumo_step(c, actor, pai) is Ok ==> same_points(c, tsumo_step(c, actor, pai)->Ok_0),
        opening_step(c, actor, pai) is Ok ==> same_points(c, opening_step(c, actor, pai)->Ok_0),
        dahai_step(c, actor, pai, tsumogiri) is Ok ==> same_points(c, dahai_step(c, actor, pai, tsumogiri)->Ok_0),
        opening_dahai_step(c, actor, pai) is Ok ==> same_points(c, opening_dahai_step(c, actor, pai)->Ok_0),
        reach_step(c, actor) is Ok ==> same_points(c, reach_step(c, actor)->Ok_0),
        dora_step(c, pai) is Ok ==> same_points(c, dora_step(c, pai)->Ok_0),
{
}

/// Points, sticks and counters are as before.
pub open spec fn same_points(c: MirrorFacts, d: MirrorFacts) -> bool {
    d.scores == c.scores && d.kyotaku == c.kyotaku && d.honba == c.honba && d.kyoku == c.kyoku && d.oya == c.oya && d.bakaze
        == c.bakaze && d.seats == c.seats && d.me == c.me && d.rule_profile == c.rule_profile
}

/// Points change in four events alone, each in its own way: a start gives the points it names, a win
/// and a draw pay their deltas, an accepted riichi costs a thousand.
pub proof fn points_change_by_results_4p(c: MirrorFacts, event: Event4p)
    requires
        is_sound(c),
        c.kyotaku < 255,
        step_4p(c, event) is Ok,
        event is Hora ==> (event->Hora_deltas is Some && c.seats == 4 ==> in_range(c.scores, Some((event->Hora_deltas)->0@))),
        event is Ryukyoku ==> (event->Ryukyoku_deltas is Some && c.seats == 4 ==> in_range(
            c.scores,
            Some((event->Ryukyoku_deltas)->0@),
        )),
    ensures
        ({
            let d = step_4p(c, event)->Ok_0;
            match event {
                Event4p::StartKyoku { scores, kyotaku, honba, kyoku, oya, bakaze, .. } => d.scores == scores@ && d.kyotaku == kyotaku
                    && d.honba == honba && d.kyoku == kyoku && d.oya == oya && d.bakaze == bakaze,
                Event4p::Hora { deltas: Some(a), .. } => paid(c.scores, Some(a@), d.scores) && d.kyotaku == c.kyotaku,
                Event4p::Hora { deltas: None, .. } => same_points(c, d),
                Event4p::Ryukyoku { deltas: Some(a) } => paid(c.scores, Some(a@), d.scores) && d.kyotaku == c.kyotaku,
                Event4p::Ryukyoku { deltas: None } => same_points(c, d),
                Event4p::ReachAccepted { actor } => d.kyotaku == c.kyotaku + 1 && d.scores == c.scores.update(
                    actor as int,
                    (c.scores[actor as int] - 1000) as i32,
                ),
                _ => same_points(c, d),
            }
        }),
{
    reveal(step_4p);
    match event {
        Event4p::Tsumo { actor, pai } => lemma_turns_keep_points(c, actor, pai, true),
        Event4p::DealerOpening { actor, pai } => lemma_turns_keep_points(c, actor, pai, true),
        Event4p::Dahai { actor, pai, tsumogiri } => lemma_turns_keep_points(c, actor, pai, tsumogiri),
        Event4p::DealerOpeningDahai { actor, pai } => lemma_turns_keep_points(c, actor, pai, true),
        Event4p::Dora { dora_marker } => lemma_turns_keep_points(c, 0, dora_marker, true),
        Event4p::Reach { actor } => lemma_turns_keep_points(c, actor, Tile::unknown(), true),
        Event4p::Chi { actor, target, pai, consumed } => lemma_calls_keep_points(c, actor, target, pai, consumed, [pai, pai, pai], [pai, pai, pai, pai]),
        Event4p::Pon { actor, target, pai, consumed } => lemma_calls_keep_points(c, actor, target, pai, consumed, [pai, pai, pai], [pai, pai, pai, pai]),
        Event4p::Daiminkan { actor, target, pai, consumed } => lemma_calls_keep_points(c, actor, target, pai, [pai, pai], consumed, [pai, pai, pai, pai]),
        Event4p::Kakan { actor, pai, consumed } => lemma_calls_keep_points(c, actor, actor, pai, [pai, pai], consumed, [pai, pai, pai, pai]),
        Event4p::Ankan { actor, consumed } => {
            let t = consumed@[0];
            lemma_calls_keep_points(c, actor, actor, t, [t, t], [t, t, t], consumed)
        },
        Event4p::Hora { actor, target, deltas, ura_markers, .. } => wins_pay_their_deltas(
            c,
            actor,
            target,
            array_view4(deltas),
            markers_view(ura_markers),
        ),
        Event4p::Ryukyoku { deltas } => draws_pay_their_deltas(c, array_view4(deltas)),
        Event4p::ReachAccepted { actor } => accepted_riichi_pays_a_stick(c, actor),
        _ => {},
    }
    if let Event4p::Hora { deltas: None, .. } = event {
        assert(step_4p(c, event)->Ok_0.scores =~= c.scores);
    }
    if let Event4p::Ryukyoku { deltas: None } = event {
        assert(step_4p(c, event)->Ok_0.scores =~= c.scores);
    }
}

/// Points change in four events alone, each in its own way: a start gives the points it names, a win
/// and a draw pay their deltas, an accepted riichi costs a thousand.
pub proof fn points_change_by_results_3p(c: MirrorFacts, event: Event3p)
    requires
        is_sound(c),
        c.kyotaku < 255,
        step_3p(c, event) is Ok,
        event is Hora ==> (event->Hora_deltas is Some && c.seats == 3 ==> in_range(c.scores, Some((event->Hora_deltas)->0@))),
        event is Ryukyoku ==> (event->Ryukyoku_deltas is Some && c.seats == 3 ==> in_range(
            c.scores,
            Some((event->Ryukyoku_deltas)->0@),
        )),
    ensures
        ({
            let d = step_3p(c, event)->Ok_0;
            match event {
                Event3p::StartKyoku { scores, kyotaku, honba, kyoku, oya, bakaze, .. } => d.scores == scores@ && d.kyotaku == kyotaku
                    && d.honba == honba && d.kyoku == kyoku && d.oya == oya && d.bakaze == bakaze,
                Event3p::Hora { deltas: Some(a), .. } => paid(c.scores, Some(a@), d.scores) && d.kyotaku == c.kyotaku,
                Event3p::Hora { deltas: None, .. } => same_points(c, d),
                Event3p::Ryukyoku { deltas: Some(a) } => paid(c.scores, Some(a@), d.scores) && d.kyotaku == c.kyotaku,
                Event3p::Ryukyoku { deltas: None } => same_points(c, d),
                Event3p::ReachAccepted { actor } => d.kyotaku == c.kyotaku + 1 && d.scores == c.scores.update(
                    actor as int,
                    (c.scores[actor as int] - 1000) as i32,
                ),
                _ => same_points(c, d),
            }
        }),
{
    reveal(step_3p);
    match event {
        Event3p::Tsumo { actor, pai } => lemma_turns_keep_points(c, actor, pai, true),
        Event3p::DealerOpening { actor, pai } => lemma_turns_keep_points(c, actor, pai, true),
        Event3p::Dahai { actor, pai, tsumogiri } => lemma_turns_keep_points(c, actor, pai, tsumogiri),
        Event3p::DealerOpeningDahai { actor, pai } => lemma_turns_keep_points(c, actor, pai, true),
        Event3p::Dora { dora_marker } => lemma_turns_keep_points(c, 0, dora_marker, true),
        Event3p::Reach { actor } => lemma_turns_keep_points(c, actor, Tile::unknown(), true),
        Event3p::Pon { actor, target, pai, consumed } => lemma_calls_keep_points(c, actor, target, pai, consumed, [pai, pai, pai], [pai, pai, pai, pai]),
        Event3p::Daiminkan { actor, target, pai, consumed } => lemma_calls_keep_points(c, actor, target, pai, [pai, pai], consumed, [pai, pai, pai, pai]),
        Event3p::Kakan { actor, pai, consumed } => lemma_calls_keep_points(c, actor, actor, pai, [pai, pai], consumed, [pai, pai, pai, pai]),
        Event3p::Ankan { actor, consumed } => {
            let t = consumed@[0];
            lemma_calls_keep_points(c, actor, actor, t, [t, t], [t, t, t], consumed)
        },
        Event3p::Nukidora { actor, pai } => lemma_calls_keep_points(c, actor, actor, pai, [pai, pai], [pai, pai, pai], [pai, pai, pai, pai]),
        Event3p::Hora { actor, target, deltas, ura_markers, .. } => wins_pay_their_deltas(
            c,
            actor,
            target,
            array_view3(deltas),
            markers_view(ura_markers),
        ),
        Event3p::Ryukyoku { deltas } => draws_pay_their_deltas(c, array_view3(deltas)),
        Event3p::ReachAccepted { actor } => accepted_riichi_pays_a_stick(c, actor),
        _ => {},
    }
    if let Event3p::Hora { deltas: None, .. } = event {
        assert(step_3p(c, event)->Ok_0.scores =~= c.scores);
    }
    if let Event3p::Ryukyoku { deltas: None } = event {
        assert(step_3p(c, event)->Ok_0.scores =~= c.scores);
    }
}

} // verus!
