//! What the events of a hand do to tiles: draws, discards, calls and declarations.

use vstd::prelude::*;
use crate::mahjong::agari::completes;
use crate::mahjong::hand::lemma_kinds_below;
use crate::mahjong::tile::Tile;
use crate::maintainer::action::TurnAction;
use crate::maintainer::inventory::{observed, observed_all, Seen};
use crate::maintainer::mirror_rules::{
    dahai_step, drawn, is_sound, opening_dahai_step, opening_step, seen_drawn, taken, tsumo_step, windows_closed,
    MirrorFacts,
};
use crate::maintainer::player::{discard_result, waits_discarded, SeatState};
use crate::maintainer::reaction_laws::lemma_without;
use crate::maintainer::reconcile::MirrorQuality;
use crate::maintainer::table_laws::seat_stays;

verus! {

// Seats and phases.

/// A hand is being played and the seat is at the table.
pub open spec fn in_play(c: MirrorFacts, actor: u8) -> bool {
    c.started && !c.terminal && actor < c.seats
}

/// It is a seat's turn, and nothing waits for an answer.
pub open spec fn on_turn(c: MirrorFacts, actor: u8) -> bool {
    in_play(c, actor) && c.turn == actor && c.last_discard is None && c.pending_robbery is None
}

/// The seat after another.
pub open spec fn seat_after(seat: u8, seats: usize) -> int {
    if seat + 1 == seats { 0 } else { seat + 1 }
}

/// A tile of a seat as the own seat sees it.
pub open spec fn as_seen(c: MirrorFacts, actor: u8, pai: Tile) -> Tile {
    if actor == c.me { pai } else { Tile::unknown() }
}

/// The tiles of all seats but one stay as they are.
pub open spec fn others_stay(c: MirrorFacts, d: MirrorFacts, actor: u8) -> bool {
    &&& d.players.len() == c.players.len()
    &&& forall|i: int| 0 <= i < c.players.len() && i != actor ==> seat_stays(#[trigger] c.players[i], d.players[i])
}

/// Riichi of all seats but one stays as it is.
pub open spec fn riichi_stays(c: MirrorFacts, d: MirrorFacts, actor: u8) -> bool {
    forall|i: int|
        0 <= i < c.players.len() && i != actor ==> (#[trigger] d.players[i]).riichi == c.players[i].riichi
            && d.players[i].double_riichi == c.players[i].double_riichi
}

// Draws.

/// The seat that draws: the one that declared a kan or a North, else the one after the last discard,
/// else the one whose turn it is.
pub open spec fn drawer(c: MirrorFacts) -> int {
    if c.pending_robbery is Some {
        c.pending_robbery->0.actor as int
    } else if c.last_discard is Some {
        seat_after((c.last_discard->0).0, c.seats)
    } else {
        c.turn as int
    }
}

pub proof fn lemma_after(from: u8, seats: usize)
    requires
        seats == 3 || seats == 4,
        from < seats,
    ensures
        (from + 1) % seats as int == seat_after(from, seats),
{
    if from + 1 == seats {
        assert((from + 1) % seats as int == 0);
    } else {
        assert((from + 1) % seats as int == from + 1);
    }
}

proof fn lemma_draw_taken(c: MirrorFacts, actor: u8, pai: Tile)
    requires
        is_sound(c),
    ensures
        tsumo_step(c, actor, pai) is Ok <==> {
            &&& in_play(c, actor) && !c.dealer_opening
            &&& actor == drawer(c)
            &&& c.players[actor as int].drawn_tile is None
            &&& actor == c.me ==> observed(c.known_tiles, pai, c.seats, c.rule_profile) is Ok
        },
        tsumo_step(c, actor, pai) is Ok ==> exists|known: Seen| tsumo_step(c, actor, pai)->Ok_0 == #[trigger] drawn(
            c,
            actor,
            pai,
            known,
        ),
{
    if c.last_discard is Some {
        lemma_after((c.last_discard->0).0, c.seats);
    }
    if tsumo_step(c, actor, pai) is Ok {
        let known = seen_drawn(c, actor, pai)->Ok_0;
        assert(tsumo_step(c, actor, pai)->Ok_0 == drawn(c, actor, pai, known));
    }
}

proof fn lemma_windows_closed(c: MirrorFacts)
    requires
        is_sound(c),
    ensures
        ({
            let w = windows_closed(c);
            &&& others_stay(c, w, 255) && riichi_stays(c, w, 255)
            &&& forall|i: int|
                0 <= i < c.players.len() ==> (#[trigger] w.players[i]).ippatsu == (c.players[i].ippatsu && c.pending_robbery is None)
            &&& w.pending_robbery is None && !w.pending_missed_ron
            &&& w.tiles_left == c.tiles_left && w.pending_rinshan_draw == c.pending_rinshan_draw
            &&& w.dora_indicators == c.dora_indicators && w.quality == c.quality && w.terminal == c.terminal && w.me == c.me
        }),
{
}

/// A draw is taken exactly from the seat that draws, once, outside the dealer's opening, and of a tile
/// that can still be there. It adds that tile to the hand and takes one from the wall; no other seat's
/// tiles move. A declaration before it ends every first turn of riichi.
pub proof fn draws_add_a_tile(c: MirrorFacts, actor: u8, pai: Tile)
    requires
        is_sound(c),
    ensures
        tsumo_step(c, actor, pai) is Ok <==> {
            &&& in_play(c, actor) && !c.dealer_opening
            &&& actor == drawer(c)
            &&& c.players[actor as int].drawn_tile is None
            &&& actor == c.me ==> observed(c.known_tiles, pai, c.seats, c.rule_profile) is Ok
        },
        tsumo_step(c, actor, pai) is Ok ==> {
            let d = tsumo_step(c, actor, pai)->Ok_0;
            let p = c.players[actor as int];
            let q = d.players[actor as int];
            &&& q.hand == p.hand.push(as_seen(c, actor, pai)) && q.drawn_tile == Some(as_seen(c, actor, pai))
            &&& q.melds == p.melds && q.discards == p.discards
            &&& others_stay(c, d, actor)
            &&& riichi_stays(c, d, actor) && q.riichi == p.riichi
            &&& d.tiles_left == if c.tiles_left == 0 { 0 } else { c.tiles_left - 1 }
            &&& d.turn == actor && d.last_discard is None && d.pending_robbery is None && !d.terminal
            &&& d.last_draw_was_rinshan == c.pending_rinshan_draw && !d.pending_rinshan_draw
            &&& forall|i: int|
                0 <= i < c.players.len() ==> (#[trigger] d.players[i]).ippatsu == (c.players[i].ippatsu && c.pending_robbery is None)
            &&& d.dora_indicators == c.dora_indicators
            &&& d.quality != c.quality ==> c.tiles_left == 0 || (actor == c.me && !pai.is_known())
            &&& c.quality == MirrorQuality::Exact && (c.tiles_left == 0 || (actor == c.me && !pai.is_known())) ==> d.quality
                == MirrorQuality::Degraded
        },
{
    lemma_draw_taken(c, actor, pai);
    if tsumo_step(c, actor, pai) is Ok {
        let known = choose|known: Seen| tsumo_step(c, actor, pai)->Ok_0 == #[trigger] drawn(c, actor, pai, known);
        let e = MirrorFacts { known_tiles: known, ..c };
        let w = windows_closed(e);
        lemma_windows_closed(e);
        let p = w.players[actor as int];
        let t = as_seen(c, actor, pai);
        let q = SeatState { hand: p.hand.push(t), drawn_tile: Some(t), ..p };
        let d = drawn(c, actor, pai, known);
        assert(d.players == w.players.update(actor as int, q));
        assert(seat_stays(c.players[actor as int], p));
        assert forall|i: int| 0 <= i < c.players.len() && i != actor implies seat_stays(#[trigger] c.players[i], d.players[i]) by {
            assert(d.players[i] == w.players[i]);
            assert(c.players[i] == e.players[i]);
        }
    }
}

/// The dealer's opening is taken exactly before anything has happened, from the dealer on turn with
/// thirteen tiles. It adds the fourteenth and takes it from the wall.
pub proof fn openings_add_a_tile(c: MirrorFacts, actor: u8, pai: Tile)
    requires
        is_sound(c),
    ensures
        opening_step(c, actor, pai) is Ok <==> {
            &&& on_turn(c, actor) && actor == c.oya && !c.dealer_opening
            &&& forall|i: int|
                0 <= i < c.seats ==> (#[trigger] c.players[i]).discards.len() == 0 && c.players[i].melds.len() == 0
                    && c.players[i].drawn_tile is None
            &&& c.players[actor as int].hand.len() == 13
            &&& actor == c.me ==> observed(c.known_tiles, pai, c.seats, c.rule_profile) is Ok
        },
        opening_step(c, actor, pai) is Ok ==> {
            let d = opening_step(c, actor, pai)->Ok_0;
            let p = c.players[actor as int];
            let q = d.players[actor as int];
            &&& q.hand == p.hand.push(as_seen(c, actor, pai)) && q.drawn_tile is None
            &&& q.melds == p.melds && q.discards == p.discards
            &&& others_stay(c, d, actor)
            &&& d.tiles_left == if c.tiles_left == 0 { 0 } else { c.tiles_left - 1 }
            &&& d.turn == actor && d.dealer_opening && d.last_discard is None && !d.terminal
        },
{
    if c.started && !c.terminal && actor < c.seats {
        assert((forall|i: int| 0 <= i < c.players.len() ==> crate::maintainer::mirror_rules::is_untouched(#[trigger] c.players[i]))
            <==> (forall|i: int|
            0 <= i < c.seats ==> (#[trigger] c.players[i]).discards.len() == 0 && c.players[i].melds.len() == 0
                && c.players[i].drawn_tile is None));
    }
}

// Discards.

/// A seat has declared riichi and not been answered.
pub open spec fn has_declared(c: MirrorFacts, actor: u8) -> bool {
    c.pending_reach is Some && c.pending_reach->0.actor == actor
}

/// A declared riichi allows a discard: nobody declared, or the seat did, with this discard.
pub open spec fn fits_declaration(c: MirrorFacts, actor: u8, action: TurnAction) -> bool {
    c.pending_reach is Some ==> c.pending_reach->0.actor == actor && (actor == c.me ==> c.pending_reach->0.legal_discards.contains(
        action,
    ))
}

/// A tile stands in a hand elsewhere than at the drawn place.
pub open spec fn holds_undrawn(p: SeatState, pai: Tile) -> bool {
    exists|i: int|
        0 <= i < p.hand.len() && #[trigger] p.hand[i] == pai && !(p.drawn_tile == Some(p.hand[p.hand.len() - 1]) && i == p.hand.len()
            - 1)
}

/// The own seat may throw a tile: no call forbids it, and it is the drawn one, or in hand.
pub open spec fn can_throw(p: SeatState, pai: Tile, tsumogiri: bool) -> bool {
    &&& !p.kuikae_forbidden.contains(pai.kind())
    &&& if tsumogiri {
        p.hand.len() > 0 && p.drawn_tile == Some(pai) && p.hand[p.hand.len() - 1] == pai
    } else {
        holds_undrawn(p, pai)
    }
}

proof fn lemma_can_throw(p: SeatState, pai: Tile, tsumogiri: bool)
    ensures
        discard_result(p, pai, tsumogiri) is Ok <==> can_throw(p, pai, tsumogiri),
        discard_result(p, pai, tsumogiri) is Ok ==> discard_result(p, pai, tsumogiri)->Ok_0.to_multiset()
            == p.hand.to_multiset().remove(pai) && discard_result(p, pai, tsumogiri)->Ok_0.len() == p.hand.len() - 1,
{
    let hand = p.hand;
    if hand.len() > 0 {
        let cut = hand.drop_last();
        if cut.contains(pai) {
            let i = choose|i: int| 0 <= i < cut.len() && cut[i] == pai;
            assert(hand[i] == pai);
        }
        if holds_undrawn(p, pai) {
            let i = choose|i: int|
                0 <= i < hand.len() && #[trigger] hand[i] == pai && !(p.drawn_tile == Some(hand[hand.len() - 1]) && i == hand.len() - 1);
            assert(hand.contains(pai));
            if i < hand.len() - 1 {
                assert(cut[i] == pai);
            }
        }
        if hand.contains(pai) && p.drawn_tile != Some(hand.last()) {
            let i = choose|i: int| 0 <= i < hand.len() && hand[i] == pai;
            assert(hand[i] == pai);
        }
        lemma_without(hand, pai);
        hand.to_multiset_ensures();
        assert(hand.drop_last() =~= hand.remove(hand.len() - 1));
    }
}

/// After a discard: it lies in the seat's pond and is the last one, the hand is one tile shorter, and a
/// declared riichi counts from now on. No other seat's tiles move.
pub open spec fn is_after_discard(c: MirrorFacts, d: MirrorFacts, actor: u8, pai: Tile) -> bool {
    let p = c.players[actor as int];
    let q = d.players[actor as int];
    &&& q.discards == p.discards.push(pai) && q.melds == p.melds && q.called_discards == p.called_discards
    &&& q.hand.to_multiset() == p.hand.to_multiset().remove(as_seen(c, actor, pai)) && q.hand.len() == p.hand.len() - 1
    &&& q.kuikae_forbidden.len() == 0
    &&& q.riichi == (p.riichi || has_declared(c, actor))
    &&& q.double_riichi == if has_declared(c, actor) { c.pending_reach->0.double_riichi } else { p.double_riichi }
    &&& q.ippatsu == has_declared(c, actor)
    &&& others_stay(c, d, actor) && riichi_stays(c, d, actor)
    &&& d.last_discard == Some((actor, pai)) && d.turn == actor && !d.dealer_opening && !d.last_draw_was_rinshan
    &&& d.pending_reach == c.pending_reach && d.pending_robbery is None
    &&& d.tiles_left == c.tiles_left && d.dora_indicators == c.dora_indicators && !d.terminal
}

/// A discard is taken exactly on the seat's turn, outside the opening, as a declared riichi allows: from
/// the own hand a tile that may be thrown, from another's any tile that can still be there, after a
/// draw where it is said to be the drawn one.
pub proof fn discards_move_a_tile(c: MirrorFacts, actor: u8, pai: Tile, tsumogiri: bool)
    requires
        is_sound(c),
    ensures
        dahai_step(c, actor, pai, tsumogiri) is Ok <==> {
            &&& on_turn(c, actor) && !c.dealer_opening
            &&& fits_declaration(c, actor, TurnAction::Riichi { tile: pai, tsumogiri })
            &&& if actor == c.me {
                can_throw(c.players[actor as int], pai, tsumogiri)
            } else {
                &&& observed(c.known_tiles, pai, c.seats, c.rule_profile) is Ok
                &&& tsumogiri ==> c.players[actor as int].drawn_tile is Some
                &&& c.players[actor as int].hand.contains(Tile::unknown())
            }
        },
        dahai_step(c, actor, pai, tsumogiri) is Ok ==> is_after_discard(c, dahai_step(c, actor, pai, tsumogiri)->Ok_0, actor, pai)
            && dahai_step(c, actor, pai, tsumogiri)->Ok_0.players[actor as int].drawn_tile is None,
        dahai_step(c, actor, pai, tsumogiri) is Ok && actor == c.me && tsumogiri ==> dahai_step(
            c,
            actor,
            pai,
            tsumogiri,
        )->Ok_0.players[actor as int].hand == c.players[actor as int].hand.drop_last(),
{
    if in_play(c, actor) {
        let p = c.players[actor as int];
        lemma_can_throw(p, pai, tsumogiri);
        lemma_without(p.hand, Tile::unknown());
        lemma_observed_one(c, pai);
    }
}

proof fn lemma_observed_one(c: MirrorFacts, pai: Tile)
    ensures
        observed_all(c.known_tiles, seq![pai], c.seats, c.rule_profile) == observed(c.known_tiles, pai, c.seats, c.rule_profile),
{
    assert(seq![pai].drop_last() =~= Seq::empty());
    assert(observed_all(c.known_tiles, Seq::empty(), c.seats, c.rule_profile) == Ok::<_, Seq<char>>(c.known_tiles));
}

/// The dealer's opening discard is taken exactly in the opening, of any tile of the own hand, or from
/// another's of any that can still be there.
pub proof fn opening_discards_move_a_tile(c: MirrorFacts, actor: u8, pai: Tile)
    requires
        is_sound(c),
    ensures
        opening_dahai_step(c, actor, pai) is Ok <==> {
            &&& on_turn(c, actor) && actor == c.oya && c.dealer_opening
            &&& fits_declaration(c, actor, TurnAction::DealerOpeningRiichi { tile: pai })
            &&& if actor == c.me {
                c.players[actor as int].drawn_tile is None && c.players[actor as int].hand.contains(pai)
            } else {
                observed(c.known_tiles, pai, c.seats, c.rule_profile) is Ok && c.players[actor as int].hand.contains(
                    Tile::unknown(),
                )
            }
        },
        opening_dahai_step(c, actor, pai) is Ok ==> is_after_discard(c, opening_dahai_step(c, actor, pai)->Ok_0, actor, pai),
{
    if in_play(c, actor) {
        let p = c.players[actor as int];
        lemma_without(p.hand, pai);
        lemma_without(p.hand, Tile::unknown());
        lemma_observed_one(c, pai);
    }
}

/// After a discard of the own seat, it is furiten by discards exactly where its discards hold a kind
/// that would complete the hand, and no longer furiten for the turn.
pub proof fn own_discards_tell_furiten(c: MirrorFacts, pai: Tile, tsumogiri: bool)
    requires
        is_sound(c),
        dahai_step(c, c.me, pai, tsumogiri) is Ok,
        c.players[c.me as int].melds.len() <= 255,
    ensures
        ({
            let q = dahai_step(c, c.me, pai, tsumogiri)->Ok_0.players[c.me as int];
            &&& q.furiten <==> exists|i: int|
                0 <= i < q.discards.len() && (#[trigger] q.discards[i]).kind() < 34 && completes(
                    crate::maintainer::player::counts_of(q.hand),
                    crate::maintainer::offer_laws::called_count(q.melds) as u8,
                    c.seats == 3,
                    q.discards[i].kind() as int,
                )
            &&& !q.temporary_furiten
        }),
{
    let q = dahai_step(c, c.me, pai, tsumogiri)->Ok_0.players[c.me as int];
    crate::maintainer::offer_laws::lemma_called(q.melds);
    let counts = crate::maintainer::player::counts_of(q.hand);
    let n = crate::maintainer::offer_laws::called_count(q.melds) as u8;
    let p = |k: int| completes(counts, n, c.seats == 3, k);
    let w = crate::maintainer::player::hand_waits(q.hand, q.melds, c.seats == 3);
    lemma_kinds_below(34, p);
    assert(w == crate::mahjong::hand::kinds_below(34, p));
    let ds = q.discards;
    assert(c.players[c.me as int].is_sanma == (c.seats == 3));
    assert(q.furiten == waits_discarded(q.hand, q.melds, c.seats == 3, ds));
    assert forall|i: int| 0 <= i < ds.len() implies (w.contains((#[trigger] ds[i]).kind()) <==> ds[i].kind() < 34 && completes(
        counts,
        n,
        c.seats == 3,
        ds[i].kind() as int,
    )) by {
        let k = ds[i].kind();
        if w.contains(k) {
            let j = choose|j: int| 0 <= j < w.len() && w[j] == k;
            assert(p(w[j] as int));
        }
        if k < 34 && completes(counts, n, c.seats == 3, k as int) {
            assert(p(k as int));
        }
    }
}

// Rons that are passed on.

/// What becomes of a ron that was open: in riichi the seat can win on no discard any more, else on none
/// until its next own one.
pub open spec fn is_passed_on(c: MirrorFacts, d: MirrorFacts) -> bool {
    let p = c.players[c.me as int];
    let q = d.players[c.me as int];
    &&& q.riichi_furiten == (p.riichi_furiten || (c.pending_missed_ron && p.riichi))
    &&& q.temporary_furiten == (p.temporary_furiten || (c.pending_missed_ron && !p.riichi))
    &&& q.furiten == p.furiten
    &&& !d.pending_missed_ron
}

/// A draw closes an open ron, whoever draws.
pub proof fn draws_pass_on_an_open_ron(c: MirrorFacts, actor: u8, pai: Tile)
    requires
        is_sound(c),
        tsumo_step(c, actor, pai) is Ok,
    ensures
        is_passed_on(c, tsumo_step(c, actor, pai)->Ok_0),
{
    lemma_draw_taken(c, actor, pai);
    assert(in_play(c, actor));
    let known = choose|known: Seen| tsumo_step(c, actor, pai)->Ok_0 == #[trigger] drawn(c, actor, pai, known);
    lemma_drawn_passes(c, actor, pai, known);
}

proof fn lemma_drawn(c: MirrorFacts, actor: u8, pai: Tile, known: Seen)
    ensures
        ({
            let w = windows_closed(MirrorFacts { known_tiles: known, ..c });
            let p = w.players[actor as int];
            let t = as_seen(c, actor, pai);
            let d = drawn(c, actor, pai, known);
            &&& d.players == w.players.update(actor as int, SeatState { hand: p.hand.push(t), drawn_tile: Some(t), ..p })
            &&& d.pending_missed_ron == w.pending_missed_ron
        }),
{
}

proof fn lemma_drawn_passes(c: MirrorFacts, actor: u8, pai: Tile, known: Seen)
    requires
        is_sound(c),
        in_play(c, actor),
    ensures
        is_passed_on(c, drawn(c, actor, pai, known)),
{
    let e = MirrorFacts { known_tiles: known, ..c };
    lemma_windows_pass(e);
    lemma_drawn(c, actor, pai, known);
    let w = windows_closed(e);
    assert(is_passed_on(c, w));
    assert(w.players.len() == c.players.len());
}

proof fn lemma_windows_pass(c: MirrorFacts)
    requires
        c.me < c.players.len(),
    ensures
        is_passed_on(c, windows_closed(c)),
{
}

/// Another seat's discard opens a ron for the own seat exactly where it completes the own hand and the seat
/// is not furiten, by what it passed on before or by what it has thrown.
pub proof fn discards_open_a_ron_exactly(c: MirrorFacts, actor: u8, pai: Tile, tsumogiri: bool)
    requires
        is_sound(c),
        actor != c.me,
        dahai_step(c, actor, pai, tsumogiri) is Ok,
        c.players[c.me as int].melds.len() <= 255,
    ensures
        ({
            let p = c.players[c.me as int];
            let d = dahai_step(c, actor, pai, tsumogiri)->Ok_0;
            let passed = c.pending_missed_ron || p.temporary_furiten || p.riichi_furiten;
            &&& d.pending_missed_ron <==> !passed && !p.furiten && pai.kind() < 34 && completes(
                crate::maintainer::player::counts_of(p.hand),
                crate::maintainer::offer_laws::called_count(p.melds) as u8,
                c.seats == 3,
                pai.kind() as int,
            )
            &&& d.players[c.me as int].temporary_furiten == (p.temporary_furiten || (c.pending_missed_ron && !p.riichi))
            &&& d.players[c.me as int].riichi_furiten == (p.riichi_furiten || (c.pending_missed_ron && p.riichi))
        }),
{
    let p = c.players[c.me as int];
    crate::maintainer::offer_laws::lemma_called(p.melds);
    let counts = crate::maintainer::player::counts_of(p.hand);
    let n = crate::maintainer::offer_laws::called_count(p.melds) as u8;
    let f = |k: int| completes(counts, n, c.seats == 3, k);
    let w = crate::maintainer::player::hand_waits(p.hand, p.melds, c.seats == 3);
    lemma_kinds_below(34, f);
    assert(w == crate::mahjong::hand::kinds_below(34, f));
    let k = pai.kind();
    assert(w.contains(k) <==> k < 34 && completes(counts, n, c.seats == 3, k as int)) by {
        if w.contains(k) {
            let j = choose|j: int| 0 <= j < w.len() && w[j] == k;
            assert(f(w[j] as int));
        }
        if k < 34 && completes(counts, n, c.seats == 3, k as int) {
            assert(f(k as int));
        }
    }
    assert(p.is_sanma == (c.seats == 3));
}

} // verus!
