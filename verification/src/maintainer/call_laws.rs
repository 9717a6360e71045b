//! What calls and declarations do: which are taken, and where their tiles go.

use vstd::prelude::*;
use vstd::multiset::*;
use crate::mahjong::meld::Meld;
use crate::mahjong::tile::Tile;
use crate::maintainer::action::{RobberyKind, TurnAction};
use crate::maintainer::inventory::{observed_all, Seen};
use crate::maintainer::legal::{reactions, turn_actions, Response};
use crate::maintainer::mirror_rules::{
    after_robbery, all_of_kind, ankan_placed, call_laid, called, caller_of, chi_step, committed, consumed_from,
    core_view, count_unknown, daiminkan_step, declared, drop_unknown, in_kind_order, is_run, is_sound, kakan_placed,
    nukidora_placed, pon_at, pon_step, reach_step, riichi_only, robbery_step, same_three, seen_from, taken,
    MirrorFacts, Step,
};
use crate::maintainer::move_laws::{in_play, is_passed_on, on_turn, others_stay, riichi_stays, seat_after};
use crate::maintainer::offer_laws::lemma_pushed;
use crate::maintainer::player::SeatState;
use crate::maintainer::reaction_laws::{is_straight, lemma_without};
use crate::maintainer::table_laws::seat_stays;
use crate::maintainer::tileset::{forbidden_after_chi, without};

verus! {

// Tiles that leave a hand.

/// What leaves a hand when a seat lays out tiles: those tiles from the own hand, as many unknown ones
/// from another's.
pub open spec fn laid_out(c: MirrorFacts, actor: u8, tiles: Seq<Tile>) -> Multiset<Tile> {
    if actor == c.me { tiles.to_multiset() } else { Seq::new(tiles.len(), |i: int| Tile::unknown()).to_multiset() }
}

/// A seat holds the tiles that it lays out.
pub open spec fn can_lay_out(c: MirrorFacts, actor: u8, tiles: Seq<Tile>) -> bool {
    laid_out(c, actor, tiles).subset_of(c.players[actor as int].hand.to_multiset())
}

proof fn lemma_taken(hand: Seq<Tile>, tiles: Seq<Tile>)
    ensures
        taken(hand, tiles) is Ok <==> tiles.to_multiset().subset_of(hand.to_multiset()),
        taken(hand, tiles) is Ok ==> taken(hand, tiles)->Ok_0.to_multiset() == hand.to_multiset().sub(tiles.to_multiset())
            && taken(hand, tiles)->Ok_0.len() == hand.len() - tiles.len(),
    decreases tiles.len(),
{
    broadcast use group_multiset_axioms;
    hand.to_multiset_ensures();
    tiles.to_multiset_ensures();
    if tiles.len() == 0 {
        assert(tiles.to_multiset() =~= Multiset::empty());
        assert(hand.to_multiset().sub(tiles.to_multiset()) =~= hand.to_multiset());
    } else {
        let r = tiles.drop_last();
        let x = tiles.last();
        lemma_taken(hand, r);
        r.to_multiset_ensures();
        assert(tiles =~= r.push(x));
        assert(tiles.to_multiset() =~= r.to_multiset().insert(x));
        let a = hand.to_multiset();
        let b = r.to_multiset();
        let e = tiles.to_multiset();
        assert(e.count(x) == b.count(x) + 1);
        assert forall|v: Tile| v != x implies #[trigger] e.count(v) == b.count(v) by {}
        if taken(hand, r) is Ok {
            let h = taken(hand, r)->Ok_0;
            h.to_multiset_ensures();
            lemma_without(h, x);
            assert(h.to_multiset().count(x) == a.count(x) - b.count(x)) by {
                assert(b.count(x) <= a.count(x));
            }
            assert(h.contains(x) <==> a.count(x) > b.count(x));
            if h.contains(x) {
                assert(e.subset_of(a)) by {
                    assert forall|v: Tile| #[trigger] e.count(v) <= a.count(v) by {
                        assert(b.count(v) <= a.count(v));
                    }
                }
                assert(without(h, x).to_multiset() =~= a.sub(e));
            } else {
                assert(!e.subset_of(a)) by {
                    assert(e.count(x) > a.count(x));
                }
            }
        } else {
            let v = choose|v: Tile| b.count(v) > a.count(v);
            assert(e.count(v) > a.count(v));
        }
    }
}

proof fn lemma_unknown_count(hand: Seq<Tile>)
    ensures
        count_unknown(hand) == hand.to_multiset().count(Tile::unknown()),
    decreases hand.len(),
{
    broadcast use group_multiset_axioms;
    hand.to_multiset_ensures();
    if hand.len() > 0 {
        let r = hand.drop_last();
        lemma_unknown_count(r);
        r.to_multiset_ensures();
        assert(hand =~= r.push(hand.last()));
        assert(hand.to_multiset() =~= r.to_multiset().insert(hand.last()));
    } else {
        assert(hand.to_multiset().len() == 0);
    }
}

spec fn unknowns(n: nat) -> Seq<Tile> {
    Seq::new(n, |i: int| Tile::unknown())
}

proof fn lemma_unknowns(n: nat, t: Tile)
    ensures
        unknowns(n).to_multiset().count(t) == if t == Tile::unknown() { n } else { 0 },
    decreases n,
{
    broadcast use group_multiset_axioms;
    let s = unknowns(n);
    s.to_multiset_ensures();
    if n > 0 {
        let m = (n - 1) as nat;
        lemma_unknowns(m, t);
        unknowns(m).to_multiset_ensures();
        assert(s =~= unknowns(m).push(Tile::unknown()));
        assert(s.to_multiset() =~= unknowns(m).to_multiset().insert(Tile::unknown()));
    } else {
        assert(s.to_multiset().len() == 0);
    }
}

proof fn lemma_drop_unknown(hand: Seq<Tile>, n: nat)
    requires
        taken(hand, unknowns(n)) is Ok,
    ensures
        taken(hand, unknowns(n))->Ok_0 == drop_unknown(hand, n),
    decreases n,
{
    if n > 0 {
        assert(unknowns(n).drop_last() =~= unknowns((n - 1) as nat));
        lemma_drop_unknown(hand, (n - 1) as nat);
    }
}

proof fn lemma_enough(hand: Seq<Tile>, n: nat)
    ensures
        unknowns(n).to_multiset().subset_of(hand.to_multiset()) <==> count_unknown(hand) >= n,
{
    lemma_unknown_count(hand);
    lemma_unknowns(n, Tile::unknown());
    if count_unknown(hand) >= n {
        assert forall|t: Tile| #[trigger] unknowns(n).to_multiset().count(t) <= hand.to_multiset().count(t) by {
            lemma_unknowns(n, t);
        }
    }
}

proof fn lemma_consumed(c: MirrorFacts, actor: u8, tiles: Seq<Tile>)
    ensures
        consumed_from(c, actor, tiles) is Ok <==> can_lay_out(c, actor, tiles),
        consumed_from(c, actor, tiles) is Ok ==> {
            let p = c.players[actor as int];
            let q = consumed_from(c, actor, tiles)->Ok_0;
            &&& q.hand.to_multiset() == p.hand.to_multiset().sub(laid_out(c, actor, tiles))
            &&& q.hand.len() == p.hand.len() - tiles.len()
            &&& q == (SeatState { hand: q.hand, drawn_tile: None, ..p })
        },
{
    let p = c.players[actor as int];
    if actor == c.me {
        lemma_taken(p.hand, tiles);
    } else {
        let u = unknowns(tiles.len());
        assert(laid_out(c, actor, tiles) == u.to_multiset());
        lemma_taken(p.hand, u);
        lemma_enough(p.hand, tiles.len());
        if taken(p.hand, u) is Ok {
            lemma_drop_unknown(p.hand, tiles.len());
        }
    }
}

// Calls.

/// A seat can call another's last discard.
pub open spec fn can_answer(c: MirrorFacts, actor: u8, target: u8, pai: Tile) -> bool {
    in_play(c, actor) && target < c.seats && target != actor && c.last_discard == Some((target, pai))
        && c.players[target as int].discards.len() > 0
}

/// Tiles that a seat shows can still be there; own ones are known already.
pub open spec fn can_be_there(c: MirrorFacts, actor: u8, tiles: Seq<Tile>) -> bool {
    actor != c.me ==> observed_all(c.known_tiles, tiles, c.seats, c.rule_profile) is Ok
}

/// After a call: the tiles are laid out with the meld, the discard is marked as called, nobody is in
/// the first turn of riichi any more, and it is the caller's turn.
pub open spec fn is_after_call(c: MirrorFacts, d: MirrorFacts, actor: u8, target: u8, tiles: Seq<Tile>, meld: Meld) -> bool {
    let p = c.players[actor as int];
    let q = d.players[actor as int];
    let t = d.players[target as int];
    &&& q.melds == p.melds.push(meld) && q.discards == p.discards && q.drawn_tile is None
    &&& q.hand.to_multiset() == p.hand.to_multiset().sub(laid_out(c, actor, tiles))
    &&& q.hand.len() == p.hand.len() - tiles.len()
    &&& others_stay(c, d, actor) && riichi_stays(c, d, actor) && q.riichi == p.riichi
    &&& t.called_discards.contains((t.discards.len() - 1) as usize)
    &&& forall|i: int| 0 <= i < c.players.len() ==> !(#[trigger] d.players[i]).ippatsu
    &&& forall|i: int| 0 <= i < c.players.len() && i != target ==> (#[trigger] d.players[i]).called_discards
        == c.players[i].called_discards
    &&& d.turn == actor && d.last_discard is None && d.any_call && !d.last_draw_was_rinshan && !d.terminal
    &&& d.tiles_left == c.tiles_left && d.dora_indicators == c.dora_indicators
}

proof fn lemma_called(c: MirrorFacts, actor: u8, target: u8, tiles: Seq<Tile>, meld: Meld, forbidden: Seq<usize>, kan: bool, known: Seen)
    requires
        is_sound(c),
        in_play(c, actor),
        target < c.seats,
        target != actor,
    ensures
        called(c, actor, target, tiles, meld, forbidden, kan, known) is Ok <==> can_lay_out(c, actor, tiles)
            && c.players[target as int].discards.len() > 0,
        called(c, actor, target, tiles, meld, forbidden, kan, known) is Ok ==> {
            let d = called(c, actor, target, tiles, meld, forbidden, kan, known)->Ok_0;
            &&& is_after_call(c, d, actor, target, tiles, meld)
            &&& !kan ==> d.players[actor as int].kuikae_forbidden == forbidden
            &&& d.pending_rinshan_draw == (kan || c.pending_rinshan_draw)
        },
{
    let e = committed(MirrorFacts { known_tiles: known, ..c });
    assert(e.players.len() == c.players.len());
    assert forall|i: int| 0 <= i < c.players.len() implies {
        let (p, q) = (#[trigger] c.players[i], e.players[i]);
        &&& seat_stays(p, q)
        &&& q.riichi == p.riichi && q.double_riichi == p.double_riichi && q.called_discards == p.called_discards
    } by {}
    lemma_consumed(e, actor, tiles);
    assert(laid_out(e, actor, tiles) == laid_out(c, actor, tiles));
    if caller_of(e, actor, tiles, meld, forbidden, kan) is Ok {
        let caller = caller_of(e, actor, tiles, meld, forbidden, kan)->Ok_0;
        let players = e.players.update(actor as int, caller);
        assert(players[target as int] == e.players[target as int]);
        if players[target as int].discards.len() > 0 {
            let d = call_laid(e, actor, target, caller, kan)->Ok_0;
            let t = players[target as int];
            let marked = crate::maintainer::player::marked_called(t);
            let n = (t.discards.len() - 1) as usize;
            lemma_pushed(t.called_discards, n, n);
            assert(marked.called_discards.contains(n));
            assert forall|i: int| 0 <= i < c.players.len() && i != actor implies seat_stays(#[trigger] c.players[i], d.players[i]) by {}
        }
    }
}

proof fn lemma_run(a: Tile, b: Tile, pai: Tile)
    ensures
        is_run(a.kind() as int, b.kind() as int, pai.kind() as int) <==> {
            let t = in_kind_order(a, b, pai);
            is_straight(t@[0].kind() as int, t@[1].kind() as int, t@[2].kind() as int)
        },
        is_run(a.kind() as int, b.kind() as int, pai.kind() as int) ==> a.kind() != b.kind(),
{
}

/// Three tiles make a run of one suit, in some order.
pub open spec fn make_a_run(a: Tile, b: Tile, c: Tile) -> bool {
    exists|x: Tile, y: Tile, z: Tile|
        same_tiles(a, b, c, x, y, z) && #[trigger] is_straight(x.kind() as int, y.kind() as int, z.kind() as int)
}

/// Three tiles are three others in some order.
pub open spec fn same_tiles(a: Tile, b: Tile, c: Tile, x: Tile, y: Tile, z: Tile) -> bool {
    seq![a, b, c].to_multiset() == seq![x, y, z].to_multiset()
}

proof fn lemma_three(a: Tile, b: Tile, c: Tile, v: Tile)
    ensures
        seq![a, b, c].to_multiset().count(v) == (if a == v { 1nat } else { 0 }) + (if b == v { 1nat } else { 0 }) + (if c == v {
            1nat
        } else {
            0
        }),
{
    broadcast use group_multiset_axioms;
    let e = Seq::<Tile>::empty();
    e.to_multiset_ensures();
    e.push(a).to_multiset_ensures();
    e.push(a).push(b).to_multiset_ensures();
    e.push(a).push(b).push(c).to_multiset_ensures();
    assert(seq![a, b, c] =~= e.push(a).push(b).push(c));
    assert(e.to_multiset().len() == 0);
}

proof fn lemma_same_three(a: Tile, b: Tile, c: Tile, x: Tile, y: Tile, z: Tile)
    ensures
        same_tiles(a, b, c, x, y, z) <==> same_three(seq![a, b, c], seq![x, y, z]),
{
    let m = seq![a, b, c].to_multiset();
    let n = seq![x, y, z].to_multiset();
    assert forall|v: Tile| #[trigger] m.count(v) == (if a == v { 1nat } else { 0 }) + (if b == v { 1nat } else { 0 }) + (if c == v {
        1nat
    } else {
        0
    }) by {
        lemma_three(a, b, c, v);
    }
    assert forall|v: Tile| #[trigger] n.count(v) == (if x == v { 1nat } else { 0 }) + (if y == v { 1nat } else { 0 }) + (if z == v {
        1nat
    } else {
        0
    }) by {
        lemma_three(x, y, z, v);
    }
    if m == n {
        assert(m.count(a) == n.count(a));
        assert(m.count(b) == n.count(b));
        assert(m.count(c) == n.count(c));
    }
    if same_three(seq![a, b, c], seq![x, y, z]) {
        assert(m =~= n);
    }
}

proof fn lemma_makes_a_run(a: Tile, b: Tile, pai: Tile)
    ensures
        is_run(a.kind() as int, b.kind() as int, pai.kind() as int) <==> make_a_run(a, b, pai),
        ({
            let t = in_kind_order(a, b, pai);
            same_tiles(a, b, pai, t@[0], t@[1], t@[2])
        }),
{
    let t = in_kind_order(a, b, pai);
    lemma_run(a, b, pai);
    lemma_same_three(a, b, pai, t@[0], t@[1], t@[2]);
    if is_run(a.kind() as int, b.kind() as int, pai.kind() as int) {
        assert(same_tiles(a, b, pai, t@[0], t@[1], t@[2]));
        assert(is_straight(t@[0].kind() as int, t@[1].kind() as int, t@[2].kind() as int));
    }
    if make_a_run(a, b, pai) {
        let (x, y, z) = choose|x: Tile, y: Tile, z: Tile|
            same_tiles(a, b, pai, x, y, z) && #[trigger] is_straight(x.kind() as int, y.kind() as int, z.kind() as int);
        lemma_same_three(a, b, pai, x, y, z);
    }
}

/// A chi is taken exactly from the seat after the discarder, of two tiles that it holds and that make a
/// run with the discard. The meld shows the three tiles in order, the called one and its source.
pub proof fn chis_lay_out_a_run(c: MirrorFacts, actor: u8, target: u8, pai: Tile, consumed: [Tile; 2])
    requires
        is_sound(c),
    ensures
        chi_step(c, actor, target, pai, consumed) is Ok <==> {
            &&& can_answer(c, actor, target, pai) && actor == seat_after(target, c.seats)
            &&& make_a_run(consumed@[0], consumed@[1], pai)
            &&& can_be_there(c, actor, consumed@) && can_lay_out(c, actor, consumed@)
        },
        chi_step(c, actor, target, pai, consumed) is Ok ==> {
            let d = chi_step(c, actor, target, pai, consumed)->Ok_0;
            let m = d.players[actor as int].melds.last();
            let f = d.players[actor as int].kuikae_forbidden;
            &&& is_after_call(c, d, actor, target, consumed@, m)
            &&& m is Chi && m->Chi_called == pai && m->Chi_from == target
            &&& same_tiles(consumed@[0], consumed@[1], pai, m->Chi_tiles@[0], m->Chi_tiles@[1], m->Chi_tiles@[2])
            &&& is_straight(m->Chi_tiles@[0].kind() as int, m->Chi_tiles@[1].kind() as int, m->Chi_tiles@[2].kind() as int)
            &&& d.pending_rinshan_draw == c.pending_rinshan_draw
            &&& f == if c.rule_profile.kuikae_forbidden {
                forbidden_after_chi(pai, consumed@[0], consumed@[1])
            } else {
                Seq::empty()
            }
        },
{
    let a = consumed@[0];
    let b = consumed@[1];
    lemma_makes_a_run(a, b, pai);
    lemma_run(a, b, pai);
    if in_play(c, actor) && target < c.seats {
        crate::maintainer::move_laws::lemma_after(target, c.seats);
        if target != actor && seen_from(c, actor, consumed@) is Ok {
            let meld = Meld::Chi { tiles: in_kind_order(a, b, pai), called: pai, from: target };
            let f = if c.rule_profile.kuikae_forbidden { forbidden_after_chi(pai, a, b) } else { Seq::empty() };
            let known = seen_from(c, actor, consumed@)->Ok_0;
            lemma_called(c, actor, target, consumed@, meld, f, false, known);
            assert(c.players[actor as int].melds.push(meld).last() == meld);
        }
    }
}

/// A pon is taken exactly of two held tiles of the discard's kind. The meld shows the kind without red,
/// the called tile, the two from hand and the source; where swaps are forbidden, the kind may not be
/// thrown next.
pub proof fn pons_lay_out_a_triplet(c: MirrorFacts, actor: u8, target: u8, pai: Tile, consumed: [Tile; 2])
    requires
        is_sound(c),
    ensures
        pon_step(c, actor, target, pai, consumed) is Ok <==> {
            &&& can_answer(c, actor, target, pai)
            &&& consumed@[0].kind() == pai.kind() && consumed@[1].kind() == pai.kind()
            &&& can_be_there(c, actor, consumed@) && can_lay_out(c, actor, consumed@)
        },
        pon_step(c, actor, target, pai, consumed) is Ok ==> {
            let d = pon_step(c, actor, target, pai, consumed)->Ok_0;
            let m = d.players[actor as int].melds.last();
            &&& is_after_call(c, d, actor, target, consumed@, m)
            &&& m is Pon && m->Pon_tile.kind() == pai.kind() && !m->Pon_tile.is_aka()
            &&& m->Pon_called == pai && m->Pon_consumed == consumed && m->Pon_from == target
            &&& d.pending_rinshan_draw == c.pending_rinshan_draw
            &&& forall|k: usize| #[trigger]
                d.players[actor as int].kuikae_forbidden.contains(k) <==> c.rule_profile.kuikae_forbidden && k == pai.kind()
        },
{
    assert(all_of_kind(consumed@, pai.kind()) <==> consumed@[0].kind() == pai.kind() && consumed@[1].kind() == pai.kind());
    if in_play(c, actor) && target < c.seats && target != actor && seen_from(c, actor, consumed@) is Ok {
        let meld = Meld::Pon { tile: pai.deaka(), called: pai, consumed, from: target };
        let f = if c.rule_profile.kuikae_forbidden { seq![pai.kind()] } else { Seq::empty() };
        let known = seen_from(c, actor, consumed@)->Ok_0;
        lemma_called(c, actor, target, consumed@, meld, f, false, known);
        assert(c.players[actor as int].melds.push(meld).last() == meld);
        assert(seq![pai.kind()][0] == pai.kind());
    }
}

/// An open kan is taken exactly of three held tiles of the discard's kind. The meld shows the kind
/// without red, the called tile and its source, and a replacement is due.
pub proof fn open_kans_lay_out_four(c: MirrorFacts, actor: u8, target: u8, pai: Tile, consumed: [Tile; 3])
    requires
        is_sound(c),
    ensures
        daiminkan_step(c, actor, target, pai, consumed) is Ok <==> {
            &&& can_answer(c, actor, target, pai)
            &&& consumed@[0].kind() == pai.kind() && consumed@[1].kind() == pai.kind() && consumed@[2].kind() == pai.kind()
            &&& can_be_there(c, actor, consumed@) && can_lay_out(c, actor, consumed@)
        },
        daiminkan_step(c, actor, target, pai, consumed) is Ok ==> {
            let d = daiminkan_step(c, actor, target, pai, consumed)->Ok_0;
            let m = d.players[actor as int].melds.last();
            &&& is_after_call(c, d, actor, target, consumed@, m)
            &&& m is Daiminkan && m->Daiminkan_tile.kind() == pai.kind() && !m->Daiminkan_tile.is_aka()
            &&& m->Daiminkan_called == pai && m->Daiminkan_from == target
            &&& d.pending_rinshan_draw
        },
{
    assert(all_of_kind(consumed@, pai.kind()) <==> consumed@[0].kind() == pai.kind() && consumed@[1].kind() == pai.kind()
        && consumed@[2].kind() == pai.kind());
    if in_play(c, actor) && target < c.seats && target != actor && seen_from(c, actor, consumed@) is Ok {
        let meld = Meld::Daiminkan { tile: pai.deaka(), called: pai, from: target };
        let known = seen_from(c, actor, consumed@)->Ok_0;
        lemma_called(c, actor, target, consumed@, meld, Seq::empty(), true, known);
        assert(c.players[actor as int].melds.push(meld).last() == meld);
    }
}

// Declarations.

/// After a declaration: its tiles are laid out, it can be robbed of a tile, and a replacement is due.
pub open spec fn is_after_declaration(c: MirrorFacts, d: MirrorFacts, actor: u8, tiles: Seq<Tile>) -> bool {
    let p = c.players[actor as int];
    let q = d.players[actor as int];
    &&& q.hand.to_multiset() == p.hand.to_multiset().sub(laid_out(c, actor, tiles))
    &&& q.hand.len() == p.hand.len() - tiles.len()
    &&& q.discards == p.discards && q.drawn_tile is None && q.riichi == p.riichi
    &&& others_stay(c, d, actor) && riichi_stays(c, d, actor)
    &&& d.turn == actor && d.last_discard is None && d.pending_rinshan_draw && !d.last_draw_was_rinshan && d.any_call
        && !d.terminal
    &&& d.pending_robbery is Some && d.pending_robbery->0.actor == actor
    &&& d.tiles_left == c.tiles_left && d.dora_indicators == c.dora_indicators
}

proof fn lemma_declared(c: MirrorFacts, actor: u8, caller: SeatState, known: Seen, robbery: crate::maintainer::action::PendingRobbery, closes: bool)
    requires
        is_sound(c),
        in_play(c, actor),
        robbery.actor == actor,
    ensures
        ({
            let d = after_robbery(declared(c, actor, caller, known, robbery, closes));
            let q = d.players[actor as int];
            &&& q.hand == caller.hand && q.melds == caller.melds && q.discards == caller.discards && q.drawn_tile
                == caller.drawn_tile && q.riichi == caller.riichi
            &&& others_stay(c, d, actor) && riichi_stays(c, d, actor)
            &&& d.turn == actor && d.last_discard is None && d.pending_rinshan_draw && !d.last_draw_was_rinshan && d.any_call
                && !d.terminal
            &&& d.pending_robbery == Some(robbery)
            &&& d.tiles_left == c.tiles_left && d.dora_indicators == c.dora_indicators
            &&& d.dealer_opening == (c.dealer_opening && !closes)
        }),
{
}

/// A closed kan is taken exactly on the seat's turn, of four held tiles of one kind. The meld shows the
/// kind without red, and so does the tile that can be robbed.
pub proof fn closed_kans_lay_out_four(c: MirrorFacts, actor: u8, consumed: [Tile; 4])
    requires
        is_sound(c),
    ensures
        ({
            let r = robbery_step(ankan_placed(c, actor, consumed));
            &&& r is Ok <==> {
                &&& on_turn(c, actor)
                &&& forall|i: int| 0 <= i < 4 ==> (#[trigger] consumed@[i]).kind() == consumed@[0].kind()
                &&& can_be_there(c, actor, consumed@) && can_lay_out(c, actor, consumed@)
            }
            &&& r is Ok ==> {
                let d = r->Ok_0;
                let q = d.players[actor as int];
                let m = q.melds.last();
                &&& is_after_declaration(c, d, actor, consumed@)
                &&& q.melds == c.players[actor as int].melds.push(m)
                &&& m is Ankan && m->Ankan_tile.kind() == consumed@[0].kind() && !m->Ankan_tile.is_aka()
                &&& d.pending_robbery->0.kind == RobberyKind::Ankan && d.pending_robbery->0.tile == m->Ankan_tile
                &&& !d.dealer_opening
            }
        }),
{
    if in_play(c, actor) {
        lemma_consumed(c, actor, consumed@);
        if ankan_placed(c, actor, consumed) is Ok {
            let p = consumed_from(c, actor, consumed@)->Ok_0;
            let meld = Meld::Ankan { tile: consumed@[0].deaka() };
            let known = seen_from(c, actor, consumed@)->Ok_0;
            lemma_declared(
                c,
                actor,
                SeatState { melds: p.melds.push(meld), ..p },
                known,
                crate::maintainer::action::PendingRobbery { actor, tile: consumed@[0].deaka(), kind: RobberyKind::Ankan },
                true,
            );
            assert(p.melds.push(meld).last() == meld);
        }
    }
}

/// A North is set aside exactly on the seat's turn, of a North that it holds; it can be robbed.
pub proof fn norths_are_set_aside(c: MirrorFacts, actor: u8, pai: Tile)
    requires
        is_sound(c),
    ensures
        ({
            let r = robbery_step(nukidora_placed(c, actor, pai));
            &&& r is Ok <==> {
                &&& on_turn(c, actor)
                &&& pai.kind() == 30
                &&& can_be_there(c, actor, seq![pai]) && can_lay_out(c, actor, seq![pai])
            }
            &&& r is Ok ==> {
                let d = r->Ok_0;
                let q = d.players[actor as int];
                let m = q.melds.last();
                &&& is_after_declaration(c, d, actor, seq![pai])
                &&& q.melds == c.players[actor as int].melds.push(m)
                &&& m is Nukidora && m->Nukidora_tile.kind() == 30
                &&& d.pending_robbery->0.kind == RobberyKind::Nukidora && d.pending_robbery->0.tile == pai
                &&& !d.dealer_opening
            }
        }),
{
    if in_play(c, actor) {
        lemma_consumed(c, actor, seq![pai]);
        if nukidora_placed(c, actor, pai) is Ok {
            let p = consumed_from(c, actor, seq![pai])->Ok_0;
            let meld = Meld::Nukidora { tile: pai.deaka() };
            let known = seen_from(c, actor, seq![pai])->Ok_0;
            lemma_declared(
                c,
                actor,
                SeatState { melds: p.melds.push(meld), ..p },
                known,
                crate::maintainer::action::PendingRobbery { actor, tile: pai, kind: RobberyKind::Nukidora },
                true,
            );
            assert(p.melds.push(meld).last() == meld);
        }
    }
}

proof fn lemma_pon_at(melds: Seq<Meld>, k: usize)
    ensures
        0 <= pon_at(melds, k) <= melds.len(),
        pon_at(melds, k) < melds.len() ==> melds[pon_at(melds, k)] is Pon && melds[pon_at(melds, k)]->Pon_tile.kind() == k,
        forall|i: int|
            0 <= i < pon_at(melds, k) ==> !((#[trigger] melds[i]) is Pon && melds[i]->Pon_tile.kind() == k),
    decreases melds.len(),
{
    if melds.len() > 0 {
        let r = melds.drop_first();
        lemma_pon_at(r, k);
        assert forall|i: int| 0 <= i < pon_at(melds, k) implies !((#[trigger] melds[i]) is Pon && melds[i]->Pon_tile.kind()
            == k) by {
            if i > 0 {
                assert(r[i - 1] == melds[i]);
            }
        }
        if pon_at(melds, k) > 0 && pon_at(melds, k) < melds.len() {
            assert(r[pon_at(r, k)] == melds[pon_at(melds, k)]);
        }
    }
}

/// The place of a seat's pon of a kind, before which it has none.
pub open spec fn is_first_pon(melds: Seq<Meld>, k: usize, at: int) -> bool {
    &&& 0 <= at < melds.len() && melds[at] is Pon && melds[at]->Pon_tile.kind() == k
    &&& forall|i: int| 0 <= i < at ==> !((#[trigger] melds[i]) is Pon && melds[i]->Pon_tile.kind() == k)
}

/// An added kan is taken exactly on the seat's turn, of a held tile of the kind of one of its pons, whose
/// three tiles it names. The kan stands where the pon stood, and the added tile can be robbed.
pub proof fn added_kans_grow_a_pon(c: MirrorFacts, actor: u8, pai: Tile, consumed: [Tile; 3], at: int)
    requires
        is_sound(c),
        in_play(c, actor) ==> is_first_pon(c.players[actor as int].melds, pai.kind(), at) || (at
            == c.players[actor as int].melds.len() && forall|i: int|
            0 <= i < at ==> !((#[trigger] c.players[actor as int].melds[i]) is Pon && c.players[actor as int].melds[i]->Pon_tile.kind()
                == pai.kind())),
    ensures
        ({
            let r = robbery_step(kakan_placed(c, actor, pai, consumed));
            let melds = c.players[actor as int].melds;
            let pon = melds[at];
            &&& r is Ok <==> {
                &&& on_turn(c, actor)
                &&& at < melds.len()
                &&& same_tiles(
                    pon->Pon_consumed@[0],
                    pon->Pon_consumed@[1],
                    pon->Pon_called,
                    consumed@[0],
                    consumed@[1],
                    consumed@[2],
                )
                &&& can_be_there(c, actor, seq![pai]) && can_lay_out(c, actor, seq![pai])
            }
            &&& r is Ok ==> {
                let d = r->Ok_0;
                let q = d.players[actor as int];
                &&& is_after_declaration(c, d, actor, seq![pai])
                &&& q.melds.len() == melds.len()
                &&& forall|i: int| 0 <= i < melds.len() && i != at ==> #[trigger] q.melds[i] == melds[i]
                &&& q.melds[at] is Kakan && q.melds[at]->Kakan_tile.kind() == pai.kind() && !q.melds[at]->Kakan_tile.is_aka()
                    && q.melds[at]->Kakan_added == pai
                &&& d.pending_robbery->0.kind == RobberyKind::Kakan && d.pending_robbery->0.tile == pai
                &&& d.dealer_opening == c.dealer_opening
            }
        }),
{
    if in_play(c, actor) {
        let melds = c.players[actor as int].melds;
        let k = pai.kind();
        lemma_pon_at(melds, k);
        assert(at == pon_at(melds, k));
        lemma_consumed(c, actor, seq![pai]);
        if at < melds.len() {
            let pon = melds[at];
            lemma_same_three(
                pon->Pon_consumed@[0],
                pon->Pon_consumed@[1],
                pon->Pon_called,
                consumed@[0],
                consumed@[1],
                consumed@[2],
            );
            assert(consumed@ =~= seq![consumed@[0], consumed@[1], consumed@[2]]);
        }
        if kakan_placed(c, actor, pai, consumed) is Ok {
            let p = consumed_from(c, actor, seq![pai])->Ok_0;
            let known = seen_from(c, actor, seq![pai])->Ok_0;
            lemma_declared(
                c,
                actor,
                SeatState { melds: p.melds.update(at, Meld::Kakan { tile: pai.deaka(), added: pai }), ..p },
                known,
                crate::maintainer::action::PendingRobbery { actor, tile: pai, kind: RobberyKind::Kakan },
                false,
            );
        }
    }
}

// Riichi.

proof fn lemma_riichi_only(s: Seq<TurnAction>, x: TurnAction)
    ensures
        riichi_only(s).contains(x) <==> s.contains(x) && (x is Riichi || x is DealerOpeningRiichi),
    decreases s.len(),
{
    if s.len() > 0 {
        let r = s.drop_last();
        lemma_riichi_only(r, x);
        assert(s =~= r.push(s.last()));
        lemma_pushed(r, s.last(), x);
        lemma_pushed(riichi_only(r), s.last(), x);
    }
}

/// A riichi is declared exactly on the seat's turn while none is pending: by the own seat where a riichi
/// discard is offered, by another where it has drawn, is closed, has not declared and has the points.
/// The own seat may then throw exactly the discards that were offered with riichi. It is a double riichi
/// where nobody has called and the seat has thrown nothing.
pub proof fn riichi_is_declared_where_offered(c: MirrorFacts, actor: u8)
    requires
        is_sound(c),
    ensures
        reach_step(c, actor) is Ok <==> {
            let p = c.players[actor as int];
            &&& on_turn(c, actor) && c.pending_reach is None
            &&& if actor == c.me {
                exists|x: TurnAction| #[trigger]
                    turn_actions(core_view(c, actor)).contains(x) && (x is Riichi || x is DealerOpeningRiichi)
            } else {
                &&& p.drawn_tile is Some || (c.dealer_opening && actor == c.oya)
                &&& forall|i: int| 0 <= i < p.melds.len() ==> (#[trigger] p.melds[i]) is Ankan || p.melds[i] is Nukidora
                &&& !p.riichi && c.scores[actor as int] >= 1000
            }
        },
        reach_step(c, actor) is Ok ==> {
            let d = reach_step(c, actor)->Ok_0;
            &&& d == (MirrorFacts { pending_reach: d.pending_reach, ..c })
            &&& d.pending_reach is Some && d.pending_reach->0.actor == actor
            &&& d.pending_reach->0.double_riichi <==> c.players[actor as int].discards.len() == 0 && forall|i: int|
                0 <= i < c.seats ==> (#[trigger] c.players[i]).melds.len() == 0
            &&& actor == c.me ==> forall|x: TurnAction| #[trigger]
                d.pending_reach->0.legal_discards.contains(x) <==> turn_actions(core_view(c, actor)).contains(x) && (x is Riichi
                    || x is DealerOpeningRiichi)
        },
{
    let s = turn_actions(core_view(c, actor));
    assert forall|x: TurnAction| #[trigger] riichi_only(s).contains(x) <==> s.contains(x) && (x is Riichi
        || x is DealerOpeningRiichi) by {
        lemma_riichi_only(s, x);
    }
    if riichi_only(s).len() > 0 {
        assert(riichi_only(s).contains(riichi_only(s)[0]));
    }
    if exists|x: TurnAction| #[trigger] s.contains(x) && (x is Riichi || x is DealerOpeningRiichi) {
        let x = choose|x: TurnAction| #[trigger] s.contains(x) && (x is Riichi || x is DealerOpeningRiichi);
        assert(riichi_only(s).contains(x));
    }
    if in_play(c, actor) {
        let melds = c.players[actor as int].melds;
        assert forall|i: int| 0 <= i < melds.len() implies ((#[trigger] melds[i]).breaks_menzen() <==> !(melds[i] is Ankan
            || melds[i] is Nukidora)) by {}
    }
}

// Rons that are open or passed on.

/// A declaration of another seat opens a ron for the own seat exactly where ron is then offered to it.
pub proof fn declarations_open_a_ron_exactly(placed: Step)
    requires
        placed is Ok,
        placed->Ok_0.pending_robbery is Some,
    ensures
        robbery_step(placed) is Ok,
        ({
            let d = robbery_step(placed)->Ok_0;
            &&& d.pending_robbery == placed->Ok_0.pending_robbery
            &&& d.pending_missed_ron <==> d.pending_robbery->0.actor != d.me && reactions(core_view(d, d.me)).contains(
                Response::Ron,
            )
        }),
{
    let e = committed(placed->Ok_0);
    let d = robbery_step(placed)->Ok_0;
    assert(core_view(d, d.me) == core_view(e, e.me));
}

proof fn lemma_called_passes(c: MirrorFacts, actor: u8, target: u8, tiles: Seq<Tile>, meld: Meld, forbidden: Seq<usize>, kan: bool, known: Seen)
    requires
        c.me < c.players.len(),
        actor < c.players.len(),
        target < c.players.len(),
        called(c, actor, target, tiles, meld, forbidden, kan, known) is Ok,
    ensures
        is_passed_on(c, called(c, actor, target, tiles, meld, forbidden, kan, known)->Ok_0),
{
    let e = committed(MirrorFacts { known_tiles: known, ..c });
    lemma_consumed(e, actor, tiles);
    let caller = caller_of(e, actor, tiles, meld, forbidden, kan)->Ok_0;
    assert(is_passed_on(c, e));
    assert(caller.furiten == e.players[actor as int].furiten);
}

/// A call closes an open ron, whoever calls.
pub proof fn calls_pass_on_an_open_ron(c: MirrorFacts, actor: u8, target: u8, pai: Tile, two: [Tile; 2], three: [Tile; 3])
    requires
        is_sound(c),
    ensures
        chi_step(c, actor, target, pai, two) is Ok ==> is_passed_on(c, chi_step(c, actor, target, pai, two)->Ok_0),
        pon_step(c, actor, target, pai, two) is Ok ==> is_passed_on(c, pon_step(c, actor, target, pai, two)->Ok_0),
        daiminkan_step(c, actor, target, pai, three) is Ok ==> is_passed_on(
            c,
            daiminkan_step(c, actor, target, pai, three)->Ok_0,
        ),
{
    if chi_step(c, actor, target, pai, two) is Ok {
        let meld = Meld::Chi { tiles: in_kind_order(two@[0], two@[1], pai), called: pai, from: target };
        let f = if c.rule_profile.kuikae_forbidden { forbidden_after_chi(pai, two@[0], two@[1]) } else { Seq::empty() };
        lemma_called_passes(c, actor, target, two@, meld, f, false, seen_from(c, actor, two@)->Ok_0);
    }
    if pon_step(c, actor, target, pai, two) is Ok {
        let meld = Meld::Pon { tile: pai.deaka(), called: pai, consumed: two, from: target };
        let f = if c.rule_profile.kuikae_forbidden { seq![pai.kind()] } else { Seq::empty() };
        lemma_called_passes(c, actor, target, two@, meld, f, false, seen_from(c, actor, two@)->Ok_0);
    }
    if daiminkan_step(c, actor, target, pai, three) is Ok {
        let meld = Meld::Daiminkan { tile: pai.deaka(), called: pai, from: target };
        lemma_called_passes(c, actor, target, three@, meld, Seq::empty(), true, seen_from(c, actor, three@)->Ok_0);
    }
}

} // verus!
