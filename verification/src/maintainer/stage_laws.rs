//! How a hand starts, is shown to a seat, and ends.

use vstd::prelude::*;
use crate::event::event3p::Event3p;
use crate::event::event4p::Event4p;
use crate::mahjong::rules::{RiichiRuleProfile, RonResolution};
use crate::mahjong::tile::Tile;
use crate::mahjong::yaku_laws::{is_any_kan, lemma_kans, lemma_tally, places, tally};
use crate::maintainer::action::{RobberyKind, TurnAction};
use crate::maintainer::inventory::{nothing_seen, observed, observed_all, Seen};
use crate::maintainer::legal::{reactions, turn_actions, Response};
use crate::maintainer::mirror_rules::{
    core_view, dora_step, end_game_step, end_kyoku_step, four_kans, hora_step, infers, is_sound, kan_owners,
    merged_ura, opponent_of, opponents, start_game_step, start_step, total_kans, MirrorFacts, StartFacts,
};
use crate::maintainer::move_laws::in_play;
use crate::maintainer::player::SeatState;
use crate::maintainer::product::{step_3p, step_4p};
use crate::maintainer::reconcile::MirrorQuality;
use crate::maintainer::view::OpponentFacts;

verus! {

// Tiles that were seen.

/// How many copies of a tile a wall has: red fives as the rules say, the other fives the rest of
/// four, four of every other kind, and none of the middle ranks of characters with three players.
pub open spec fn copies(t: Tile, seats: usize, profile: RiichiRuleProfile) -> int {
    let k = t.kind();
    let reds = profile.red_fives(seats);
    let red = if k == 4 { reds.man as int } else if k == 13 { reds.pin as int } else if k == 22 { reds.sou as int } else { 0 };
    if seats == 3 && 1 <= k <= 7 { 0 } else if t.is_aka() { red } else { 4 - red }
}

/// How often a tile was seen.
pub open spec fn times_seen(s: Seen, t: Tile) -> int {
    if t.is_aka() { s.red[t.kind() as int / 9] as int } else { s.normal[t.kind() as int] as int }
}

/// Another five of the same suit was not seen more often than it exists.
pub open spec fn other_five_fits(s: Seen, t: Tile, seats: usize, profile: RiichiRuleProfile) -> bool {
    let k = t.kind() as int;
    let reds = profile.red_fives(seats);
    let red = if k == 4 { reds.man as int } else if k == 13 { reds.pin as int } else { reds.sou as int };
    k == 4 || k == 13 || k == 22 ==> if t.is_aka() { s.normal[k] <= 4 - red } else { s.red[k / 9] <= red }
}

/// A tile is taken in exactly while a copy of it is left, and counts once; unknown tiles are taken in
/// and not counted.
pub proof fn tiles_are_seen_while_copies_last(s: Seen, t: Tile, seats: usize, profile: RiichiRuleProfile)
    requires
        s.normal.len() == 34,
        s.red.len() == 3,
        t.is_known() ==> other_five_fits(s, t, seats, profile),
    ensures
        observed(s, t, seats, profile) is Ok <==> !t.is_known() || times_seen(s, t) < copies(t, seats, profile),
        observed(s, t, seats, profile) is Ok ==> {
            let n = observed(s, t, seats, profile)->Ok_0;
            &&& n.normal.len() == 34 && n.red.len() == 3
            &&& forall|k: int|
                0 <= k < 34 ==> #[trigger] n.normal[k] == s.normal[k] + (if t.is_known() && !t.is_aka() && t.kind() == k { 1int } else { 0 })
            &&& forall|i: int|
                0 <= i < 3 ==> #[trigger] n.red[i] == s.red[i] + (if t.is_aka() && t.kind() == 9 * i + 4 { 1int } else { 0 })
        },
{
    if t.is_known() {
        let k = t.kind() as int;
        assert(k < 34);
        if t.is_aka() {
            assert(k == 4 || k == 13 || k == 22);
        }
    }
}

// Starts.

/// A hand starts exactly between hands, or over a mirror that is not safe, with a dealer at the table,
/// a known indicator, the table's number of players, red fives that make up a wall, and tiles that can
/// be there. The table is then as the start says: its own hand, thirteen unknown tiles for every other
/// seat, the dealer's turn, one indicator, and nothing thrown, called or declared.
pub proof fn starts_set_the_table(c: MirrorFacts, s: StartFacts, sanma: bool)
    requires
        c.seats == 3 || c.seats == 4,
    ensures
        start_step(c, s, sanma) is Ok <==> {
            &&& c.me < c.seats && s.oya < c.seats
            &&& !c.started || c.terminal || c.quality == MirrorQuality::Unsafe
            &&& s.dora_marker.is_known()
            &&& sanma <==> c.seats == 3
            &&& c.rule_profile.red_fives(c.seats).man <= 4 && c.rule_profile.red_fives(c.seats).pin <= 4 && c.rule_profile.red_fives(
                c.seats,
            ).sou <= 4 && (c.seats == 3 ==> c.rule_profile.red_fives(c.seats).man == 0)
            &&& observed_all(nothing_seen(), s.my_hand.push(s.dora_marker), c.seats, c.rule_profile) is Ok
        },
        start_step(c, s, sanma) is Ok ==> {
            let d = start_step(c, s, sanma)->Ok_0;
            &&& d.scores == s.scores && d.kyotaku == s.kyotaku && d.honba == s.honba && d.kyoku == s.kyoku && d.bakaze == s.bakaze
            &&& d.oya == s.oya && d.turn == s.oya && d.tiles_left == s.tiles_left && d.me == c.me && d.seats == c.seats
            &&& d.dora_indicators.len() == 1 && d.dora_indicators[0] == s.dora_marker
            &&& d.players.len() == c.seats
            &&& forall|i: int| 0 <= i < c.seats ==> is_fresh(#[trigger] d.players[i], i, c.seats)
            &&& d.players[c.me as int].hand == s.my_hand
            &&& forall|i: int|
                0 <= i < c.seats && i != c.me ==> (#[trigger] d.players[i]).hand.len() == 13 && forall|j: int|
                    0 <= j < 13 ==> #[trigger] d.players[i].hand[j] == Tile::unknown()
            &&& d.started && !d.terminal && d.last_discard is None && d.pending_robbery is None && d.pending_reach is None
            &&& !d.any_call && !d.dealer_opening && !d.pending_missed_ron && !d.pending_rinshan_draw && !d.last_draw_was_rinshan
            &&& d.quality == if forall|i: int| 0 <= i < s.my_hand.len() ==> (#[trigger] s.my_hand[i]).is_known() {
                MirrorQuality::Exact
            } else {
                MirrorQuality::Degraded
            }
            &&& d.issues.len() == 0
        },
{
    let all = s.my_hand.push(s.dora_marker);
    assert(all.drop_last() =~= s.my_hand);
}

/// A seat that has done nothing in a hand.
pub open spec fn is_fresh(p: SeatState, seat: int, seats: usize) -> bool {
    &&& p.seat == seat && p.is_sanma == (seats == 3)
    &&& p.drawn_tile is None && p.melds.len() == 0 && p.discards.len() == 0 && p.called_discards.len() == 0
    &&& !p.riichi && !p.double_riichi && !p.ippatsu && p.kuikae_forbidden.len() == 0 && p.menzen
    &&& !p.furiten && !p.temporary_furiten && !p.riichi_furiten
}

/// A start hands the own seat its own tiles, and leaves a live wall of seventy tiles with four players,
/// of fifty-five with three.
pub proof fn starts_deal_the_own_hand(c: MirrorFacts, four: Event4p, three: Event3p)
    requires
        c.seats == 3 || c.seats == 4,
        four is StartKyoku,
        three is StartKyoku,
    ensures
        step_4p(c, four) is Ok ==> {
            let d = step_4p(c, four)->Ok_0;
            &&& c.seats == 4 && d.tiles_left == 70
            &&& d.players[c.me as int].hand == four->StartKyoku_tehais@[c.me as int]@
            &&& d.dora_indicators == seq![four->StartKyoku_dora_marker] && d.turn == four->StartKyoku_oya
        },
        step_3p(c, three) is Ok ==> {
            let d = step_3p(c, three)->Ok_0;
            &&& c.seats == 3 && d.tiles_left == 55
            &&& d.players[c.me as int].hand == three->StartKyoku_tehais@[c.me as int]@
            &&& d.dora_indicators == seq![three->StartKyoku_dora_marker] && d.turn == three->StartKyoku_oya
        },
{
    reveal(step_4p);
    reveal(step_3p);
}

/// An indicator is taken exactly while a hand is played, where it is known, can be there and is no
/// sixth; it is added to those shown, and nothing else changes.
pub proof fn indicators_are_added(c: MirrorFacts, marker: Tile)
    ensures
        dora_step(c, marker) is Ok <==> {
            &&& c.started && !c.terminal && marker.is_known()
            &&& c.dora_indicators.len() < 5
            &&& observed(c.known_tiles, marker, c.seats, c.rule_profile) is Ok
        },
        dora_step(c, marker) is Ok ==> {
            let d = dora_step(c, marker)->Ok_0;
            &&& d.dora_indicators == c.dora_indicators + seq![marker]
            &&& d == (MirrorFacts { dora_indicators: d.dora_indicators, known_tiles: d.known_tiles, ..c })
            &&& Ok::<_, Seq<char>>(d.known_tiles) == observed(c.known_tiles, marker, c.seats, c.rule_profile)
        },
{
    assert(c.dora_indicators.push(marker) =~= c.dora_indicators + seq![marker]);
}

/// A hand is closed exactly after its result; a game ends, and one starts, exactly outside a hand that
/// is played. No points and no tiles change.
pub proof fn hands_are_closed_after_their_result(c: MirrorFacts)
    ensures
        end_kyoku_step(c) is Ok <==> c.started && c.terminal,
        end_kyoku_step(c) is Ok ==> {
            let d = end_kyoku_step(c)->Ok_0;
            !d.started && d.scores == c.scores && d.players == c.players && d.last_discard is None && d.pending_robbery is None
                && d.terminal_packet is None
        },
        end_game_step(c) is Ok <==> !c.started || c.terminal,
        end_game_step(c) is Ok ==> end_game_step(c)->Ok_0 == (MirrorFacts { started: false, ..c }),
        start_game_step(c) is Ok <==> !c.started || c.terminal,
        start_game_step(c) is Ok ==> start_game_step(c)->Ok_0 == c,
{
}

// Results.

/// What a win says of points and ura markers can stand: a delta for each seat or none, and markers only
/// of a winner in riichi, as many as there are indicators.
pub open spec fn is_well_told(c: MirrorFacts, actor: u8, deltas: Option<Seq<i32>>, ura: Option<Seq<Tile>>) -> bool {
    &&& deltas is Some ==> deltas->0.len() == c.seats
    &&& ura is Some ==> ura->0.len() > 0 && c.players[actor as int].riichi && ura->0.len() == c.dora_indicators.len()
}

/// New ura markers can be there.
pub open spec fn ura_can_be_there(c: MirrorFacts, ura: Option<Seq<Tile>>) -> bool {
    ura is Some ==> observed_all(c.known_tiles, ura->0, c.seats, c.rule_profile) is Ok
}

/// A first win by a seat's own draw is taken exactly on its turn, with a drawn tile or in the dealer's
/// opening, while nothing waits for an answer; of the own seat, by an exact mirror, only where a win is
/// offered to it. The hand then takes no further winner.
pub proof fn wins_by_draw_are_taken_exactly(c: MirrorFacts, actor: u8, deltas: Option<Seq<i32>>, ura: Option<Seq<Tile>>)
    requires
        is_sound(c),
        c.terminal_packet is None,
    ensures
        hora_step(c, actor, actor, deltas, ura) is Ok <==> {
            &&& in_play(c, actor) && is_well_told(c, actor, deltas, ura) && ura_can_be_there(c, ura)
            &&& c.last_discard is None && c.pending_robbery is None
            &&& c.turn == actor && (c.players[actor as int].drawn_tile is Some || (c.dealer_opening && actor == c.oya))
            &&& actor == c.me && c.quality == MirrorQuality::Exact ==> turn_actions(core_view(c, actor)).contains(TurnAction::Tsumo)
        },
        hora_step(c, actor, actor, deltas, ura) is Ok ==> {
            let d = hora_step(c, actor, actor, deltas, ura)->Ok_0;
            &&& d.terminal_packet is Some && d.terminal_packet->0 is Tsumo
            &&& d.terminal_packet->0->Tsumo_winner == actor
        },
{
}

/// No win follows a win by draw.
pub proof fn a_win_by_draw_is_the_last(c: MirrorFacts, actor: u8, target: u8, deltas: Option<Seq<i32>>, ura: Option<Seq<Tile>>)
    requires
        c.terminal_packet is Some,
        c.terminal_packet->0 is Tsumo,
    ensures
        hora_step(c, actor, target, deltas, ura) is Err,
{
}

/// How many seats may win on one tile.
pub open spec fn most_winners(c: MirrorFacts) -> int {
    match c.rule_profile.ron_resolution {
        RonResolution::AtamaHane => 1,
        RonResolution::Multiple => c.seats - 1,
        RonResolution::TripleRonAbortive => 2,
    }
}

/// A first ron is taken exactly on the tile that waits for an answer: another seat's discard, its added
/// kan, and, where the rules say so, its closed kan or its North; of the own seat, by an exact mirror,
/// only where ron is offered to it.
pub proof fn first_rons_are_taken_exactly(c: MirrorFacts, actor: u8, target: u8, deltas: Option<Seq<i32>>, ura: Option<Seq<Tile>>)
    requires
        is_sound(c),
        c.terminal_packet is None,
        actor != target,
    ensures
        hora_step(c, actor, target, deltas, ura) is Ok <==> {
            &&& in_play(c, actor) && target < c.seats && is_well_told(c, actor, deltas, ura) && ura_can_be_there(c, ura)
            &&& match c.last_discard {
                Some((from, _)) => from == target && c.pending_robbery is None,
                None => match c.pending_robbery {
                    Some(p) => p.actor == target && match p.kind {
                        RobberyKind::Kakan => true,
                        RobberyKind::Ankan => c.rule_profile.kokushi_ankan_ron,
                        RobberyKind::Nukidora => c.rule_profile.nukidora_ron,
                    },
                    None => false,
                },
            }
            &&& actor == c.me && c.quality == MirrorQuality::Exact ==> reactions(core_view(c, c.me)).contains(Response::Ron)
        },
        hora_step(c, actor, target, deltas, ura) is Ok ==> {
            let d = hora_step(c, actor, target, deltas, ura)->Ok_0;
            &&& d.terminal_packet is Some && d.terminal_packet->0 is Ron
            &&& d.terminal_packet->0->Ron_source == target
            &&& d.terminal_packet->0->Ron_winners == seq![actor]
            &&& d.terminal_packet->0->Ron_max_winners == most_winners(c)
            &&& d.pending_robbery is None
        },
{
    let m = merged_ura(c, Seq::empty(), ura);
}

/// A further ron is taken exactly on the same seat's tile, by another winner, while the rules allow one
/// more; it joins those before it.
pub proof fn further_rons_join_the_first(c: MirrorFacts, actor: u8, target: u8, deltas: Option<Seq<i32>>, ura: Option<Seq<Tile>>)
    requires
        is_sound(c),
        c.terminal_packet is Some,
        c.terminal_packet->0 is Ron,
        c.terminal_packet->0->Ron_max_winners == most_winners(c),
        c.last_discard is None || c.pending_robbery is None,
    ensures
        hora_step(c, actor, target, deltas, ura) is Ok <==> {
            let p = c.terminal_packet->0;
            &&& c.started && actor < c.seats && target < c.seats && is_well_told(c, actor, deltas, ura)
            &&& target == p->Ron_source && actor != target
            &&& !p->Ron_winners.contains(actor) && p->Ron_winners.len() < most_winners(c)
            &&& actor == c.me ==> p->Ron_self_ron_legal_at_open != Some(false)
            &&& ura is Some ==> if p->Ron_ura_markers.len() > 0 {
                p->Ron_ura_markers == ura->0
            } else {
                observed_all(c.known_tiles, ura->0, c.seats, c.rule_profile) is Ok
            }
        },
        hora_step(c, actor, target, deltas, ura) is Ok ==> {
            let d = hora_step(c, actor, target, deltas, ura)->Ok_0;
            &&& d.terminal_packet is Some && d.terminal_packet->0 is Ron
            &&& d.terminal_packet->0->Ron_source == c.terminal_packet->0->Ron_source
            &&& d.terminal_packet->0->Ron_winners == c.terminal_packet->0->Ron_winners + seq![actor]
        },
{
    let p = c.terminal_packet->0;
    assert(p->Ron_winners.push(actor) =~= p->Ron_winners + seq![actor]);
}

/// A riichi whose discard is won on never counted: its seat is not in riichi, and nothing is pending.
pub proof fn a_won_riichi_never_counted(c: MirrorFacts, actor: u8, target: u8, deltas: Option<Seq<i32>>, ura: Option<Seq<Tile>>)
    requires
        is_sound(c),
        hora_step(c, actor, target, deltas, ura) is Ok,
    ensures
        ({
            let d = hora_step(c, actor, target, deltas, ura)->Ok_0;
            let gone = c.pending_reach is Some && c.pending_reach->0.actor == target;
            &&& gone ==> d.pending_reach is None && !d.players[target as int].riichi && !d.players[target as int].double_riichi
                && !d.players[target as int].ippatsu
            &&& !gone ==> d.pending_reach == c.pending_reach && d.players == c.players
            &&& forall|i: int| 0 <= i < c.players.len() && i != target ==> #[trigger] d.players[i] == c.players[i]
        }),
{
}

// What a seat is shown.

proof fn lemma_opponents(players: Seq<SeatState>, seat: u8, n: int)
    requires
        0 <= n <= players.len(),
        seat < players.len(),
    ensures
        opponents(players, seat, n).len() == if seat < n { n - 1 } else { n },
        forall|i: int|
            0 <= i < opponents(players, seat, n).len() ==> #[trigger] opponents(players, seat, n)[i] == opponent_of(
                players[if i < seat { i } else { i + 1 }],
                if i < seat { i } else { i + 1 },
            ),
    decreases n,
{
    if n > 0 {
        lemma_opponents(players, seat, n - 1);
    }
}

proof fn lemma_total_kans(players: Seq<SeatState>, n: int)
    requires
        0 <= n <= players.len(),
    ensures
        total_kans(players.take(n)) == players.take(n).fold_left(
            0int,
            |sum: int, p: SeatState| sum + places(p.melds.len(), |i: int| is_any_kan(p.melds[i])).len(),
        ),
        kan_owners(players.take(n)) == tally(n, |i: int| has_kan(players[i])),
    decreases n,
{
    if n > 0 {
        lemma_total_kans(players, n - 1);
        let s = players.take(n);
        assert(s.drop_last() =~= players.take(n - 1));
        lemma_kans(s.last().melds);
        let m = s.last().melds;
        let p = |i: int| is_any_kan(m[i]);
        lemma_tally(m.len() as int, p);
        lemma_some(m.len() as int, p);
        if has_kan(players[n - 1]) {
            let i = choose|i: int| 0 <= i < m.len() && is_any_kan(#[trigger] m[i]);
            assert(p(i));
        }
        if crate::mahjong::yaku::kan_count(m) > 0 {
            let i = choose|i: int| 0 <= i < m.len() && #[trigger] p(i);
            assert(is_any_kan(m[i]));
        }
    }
}

proof fn lemma_some(n: int, p: spec_fn(int) -> bool)
    ensures
        tally(n, p) > 0 <==> exists|i: int| 0 <= i < n && #[trigger] p(i),
    decreases n,
{
    if n > 0 {
        lemma_some(n - 1, p);
        if p(n - 1) {
            assert(exists|i: int| 0 <= i < n && #[trigger] p(i));
        }
    }
}

/// A seat has a kan.
pub open spec fn has_kan(p: SeatState) -> bool {
    exists|i: int| 0 <= i < p.melds.len() && is_any_kan(#[trigger] p.melds[i])
}

/// All kans of the table are four or more, and of two seats or more, where the rules end the hand on
/// them.
pub open spec fn kans_end_the_hand(c: MirrorFacts) -> bool {
    &&& c.rule_profile.suukaikan
    &&& c.players.fold_left(
        0int,
        |sum: int, p: SeatState| sum + places(p.melds.len(), |i: int| is_any_kan(p.melds[i])).len(),
    ) >= 4
    &&& places(c.players.len(), |i: int| has_kan(c.players[i])).len() >= 2
}

proof fn lemma_four_kans(c: MirrorFacts)
    ensures
        four_kans(c) == kans_end_the_hand(c),
{
    let n = c.players.len() as int;
    lemma_total_kans(c.players, n);
    assert(c.players.take(n) =~= c.players);
    lemma_tally(n, |i: int| has_kan(c.players[i]));
}

/// An exact mirror shows a seat the table as it stands: its own hand, what the others have laid out and
/// how many tiles they hold, in the order of seats, the discard or declaration that waits for an answer,
/// and whether the hand could still be ended for nine ends or is ended by four kans.
pub proof fn views_show_the_table(c: MirrorFacts, seat: u8)
    requires
        is_sound(c),
        c.players.len() > 0,
        c.quality == MirrorQuality::Exact,
        seat < c.seats,
    ensures
        ({
            let v = core_view(c, seat);
            let p = c.players[seat as int];
            let opening = c.dealer_opening && seat == c.oya;
            &&& v.state_error is None && v.round_terminal == c.terminal && v.rule_profile == c.rule_profile
            &&& v.bakaze == c.bakaze && v.kyoku == c.kyoku && v.honba == c.honba && v.kyotaku == c.kyotaku && v.oya == c.oya
            &&& v.scores == c.scores && v.dora_indicators == c.dora_indicators && v.tiles_left == c.tiles_left
            &&& v.me.seat == seat && v.me.hand == p.hand && v.me.drawn_tile == p.drawn_tile && v.me.melds == p.melds
            &&& v.me.discards == p.discards && v.me.riichi == p.riichi && v.me.ippatsu == p.ippatsu
            &&& v.me.kuikae_forbidden == p.kuikae_forbidden && v.me.temporary_furiten == p.temporary_furiten
                && v.me.riichi_furiten == p.riichi_furiten && v.me.dealer_opening == opening
            &&& v.others.len() == c.seats - 1
            &&& forall|i: int|
                0 <= i < v.others.len() ==> is_shown(c.players, #[trigger] v.others[i], if i < seat { i } else { i + 1 })
            &&& v.turn == c.turn && v.last_discard == c.last_discard && v.pending_robbery == c.pending_robbery
            &&& v.kyuushu_kyuuhai_window <==> !c.any_call && p.discards.len() == 0 && p.melds.len() == 0 && (p.drawn_tile is Some
                || opening)
            &&& v.suukaikan_pending <==> c.last_discard is Some && kans_end_the_hand(c)
            &&& v.last_draw_was_rinshan == c.last_draw_was_rinshan
        }),
{
    lemma_opponents(c.players, seat, c.seats as int);
    lemma_four_kans(c);
}

/// Another seat is shown by what lies open, and by the number of its tiles.
pub open spec fn is_shown(players: Seq<SeatState>, o: OpponentFacts, i: int) -> bool {
    &&& o.seat == i && o.melds == players[i].melds && o.discards == players[i].discards && o.riichi == players[i].riichi
    &&& players[i].hand.len() < 256 ==> o.hand_count == players[i].hand.len()
}

/// A seat should decide exactly in a hand that an exact mirror follows, once a declared riichi has its
/// discard: on its own turn, on another's discard, and on a declaration that it can win on.
pub proof fn seats_decide_when_asked(c: MirrorFacts, seat: u8)
    ensures
        infers(c, seat) <==> {
            &&& c.quality == MirrorQuality::Exact && in_play(c, seat)
            &&& c.pending_reach is Some ==> c.last_discard is Some && (c.last_discard->0).0 == c.pending_reach->0.actor
            &&& match c.pending_robbery {
                Some(_) => reactions(core_view(c, seat)).contains(Response::Ron),
                None => if c.last_discard is Some { (c.last_discard->0).0 != seat } else { c.turn == seat },
            }
        },
{
}

} // verus!
