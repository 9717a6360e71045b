//! What holds of every list of legal actions.

use vstd::prelude::*;
use crate::mahjong::agari::{completes, with_tile};
use crate::mahjong::agari_laws::waiting_hands_are_not_complete;
use crate::mahjong::calc::discarded;
use crate::mahjong::hand::{count_kind, lemma_kinds_below, sum_counts};
use crate::mahjong::shanten::kind_in_wall;
use crate::mahjong::shanten_laws::draws_advance_by_one_at_most;
use crate::mahjong::tile::Tile;
use crate::maintainer::action::{RobberyKind, TurnAction};
use crate::maintainer::legal::{
    action_if, ankans, can_kyuushu, can_nuki, can_riichi, can_ron, can_tsumo, completes_view, discard_action,
    discards_of_view, is_any_furiten, is_complete_view, kakans, kans_of, leaves_tenpai, reactions, response_if,
    riichi_action, riichis, ron_win, scores, tsumo_scores, turn_actions, Candidate, Response,
};
use crate::maintainer::player::{counts_of, hand_waits, lemma_count_within_len, open_groups, waits_discarded};
use crate::maintainer::scoring::settlement;
use crate::maintainer::view::TableFacts;

verus! {

/// The tile that a response is about.
pub open spec fn at_stake(v: TableFacts) -> Option<Tile> {
    match (v.pending_robbery, v.last_discard) {
        (Some(p), _) => Some(p.tile),
        (None, Some((_, tile))) => Some(tile),
        (None, None) => None,
    }
}

/// Taking the tile at stake robs an added kan.
pub open spec fn robs_kan(v: TableFacts) -> bool {
    v.pending_robbery is Some && v.pending_robbery->0.kind == RobberyKind::Kakan
}

/// Ron is offered only on a tile that completes the hand, without furiten and with a yaku.
pub proof fn offered_rons_win(v: TableFacts)
    requires
        reactions(v).contains(Response::Ron),
    ensures
        at_stake(v) is Some,
        !is_any_furiten(v),
        completes_view(v, at_stake(v)->0),
        settlement(ron_win(v, at_stake(v)->0, robs_kan(v))) is Some,
{
    reveal(scores);
    if is_any_furiten(v) {
        crate::maintainer::legal::furiten_rules_out_ron(v);
    }
    if v.pending_robbery is None {
        let (from, tile) = v.last_discard->0;
        if !can_ron(v, tile, false) {
            assert(response_if(can_ron(v, tile, false), Response::Ron) =~= Seq::empty());
            crate::maintainer::legal::lemma_calls_hold_no_ron(v, from, tile);
            let calls = crate::maintainer::legal::calls_on(v, from, tile);
            let r = reactions(v);
            let i = choose|i: int| 0 <= i < r.len() && r[i] == Response::Ron;
            if !(v.tiles_left == 0 || v.suukaikan_pending || v.me.riichi) {
                assert(r =~= calls);
            }
        }
    }
}

proof fn lemma_sum_with(c: Seq<u8>, k: int)
    requires
        0 <= k < c.len(),
        c[k] < 255,
    ensures
        sum_counts(with_tile(c, k)) == sum_counts(c) + 1,
    decreases c.len(),
{
    let e = with_tile(c, k);
    let d = c.drop_last();
    if k == c.len() - 1 {
        assert(e.drop_last() =~= d);
    } else {
        assert(e.drop_last() =~= with_tile(d, k));
        lemma_sum_with(d, k);
    }
}

proof fn lemma_no_tiles(c: Seq<u8>)
    requires
        forall|k: int| 0 <= k < c.len() ==> #[trigger] c[k] == 0,
    ensures
        sum_counts(c) == 0,
    decreases c.len(),
{
    if c.len() > 0 {
        assert forall|k: int| 0 <= k < c.drop_last().len() implies #[trigger] c.drop_last()[k] == 0 by {
            assert(c[k] == 0);
        }
        lemma_no_tiles(c.drop_last());
    }
}

proof fn lemma_counts(tiles: Seq<Tile>)
    requires
        tiles.len() <= 255,
    ensures
        forall|k: int| 0 <= k < 34 ==> #[trigger] counts_of(tiles)[k] == count_kind(tiles, k),
{
    assert forall|k: int| 0 <= k < 34 implies #[trigger] counts_of(tiles)[k] == count_kind(tiles, k) by {
        lemma_count_within_len(tiles, k);
    }
}

/// No more tiles are counted than there are.
proof fn lemma_counted(tiles: Seq<Tile>)
    requires
        tiles.len() <= 255,
    ensures
        sum_counts(counts_of(tiles)) <= tiles.len(),
    decreases tiles.len(),
{
    let c = counts_of(tiles);
    lemma_counts(tiles);
    if tiles.len() == 0 {
        assert forall|k: int| 0 <= k < 34 implies #[trigger] c[k] == 0 by {}
        lemma_no_tiles(c);
    } else {
        let d = counts_of(tiles.drop_last());
        lemma_counted(tiles.drop_last());
        lemma_counts(tiles.drop_last());
        let w = tiles.last().kind() as int;
        if 0 <= w < 34 {
            lemma_count_within_len(tiles.drop_last(), w);
            assert(c =~= with_tile(d, w));
            lemma_sum_with(d, w);
        } else {
            assert(c =~= d);
        }
    }
}

/// A tile that a seat has discarded itself is safe against it: it is never offered a ron on it.
pub proof fn genbutsu_is_safe(v: TableFacts)
    requires
        at_stake(v) is Some,
        discarded(v.me.discards, at_stake(v)->0.kind() as int),
        v.me.hand.len() + 3 * open_groups(v.me.melds) <= 13,
        count_kind(v.me.hand, at_stake(v)->0.kind() as int) < 4,
        kind_in_wall(at_stake(v)->0.kind() as int, v.is_sanma()),
    ensures
        !reactions(v).contains(Response::Ron),
{
    if reactions(v).contains(Response::Ron) {
        offered_rons_win(v);
        let k = at_stake(v)->0.kind() as int;
        let c = counts_of(v.me.hand);
        let melds = open_groups(v.me.melds);
        let sanma = v.is_sanma();
        lemma_counted(v.me.hand);
        lemma_counts(v.me.hand);
        waiting_hands_are_not_complete(c, melds, sanma);
        draws_advance_by_one_at_most(c, melds, sanma, k);
        let p = |j: int| completes(c, melds, sanma, j);
        lemma_kinds_below(34, p);
        assert(p(k));
        let i = choose|i: int| 0 <= i < v.me.discards.len() && (#[trigger] v.me.discards[i]).kind() == k;
        assert(hand_waits(v.me.hand, v.me.melds, sanma).contains(v.me.discards[i].kind()));
        assert(waits_discarded(v.me.hand, v.me.melds, sanma, v.me.discards));
    }
}

/// Which part of the list of turn actions an action is in.
proof fn lemma_kinds_of_turn_actions(v: TableFacts, i: int)
    requires
        0 <= i < turn_actions(v).len(),
    ensures
        turn_actions(v)[i] is Tsumo ==> can_tsumo(v),
        turn_actions(v)[i] is Riichi || turn_actions(v)[i] is DealerOpeningRiichi ==> can_riichi(v) && exists|j: int|
            0 <= j < riichis(v, discards_of_view(v)).len() && turn_actions(v)[i] == #[trigger] riichis(v, discards_of_view(v))[j],
{
    let a = action_if(can_tsumo(v), TurnAction::Tsumo);
    let b = action_if(can_kyuushu(v), TurnAction::KyuushuKyuuhai);
    let c = action_if(can_nuki(v), TurnAction::Nukidora);
    let k = kans_of(v);
    let d = discards_of_view(v).map_values(|c: Candidate| discard_action(v, c));
    let e = if can_riichi(v) { riichis(v, discards_of_view(v)) } else { Seq::empty() };
    let all = turn_actions(v);
    assert(all =~= a + b + c + k + d + e);
    let n = a.len() + b.len() + c.len();
    if i < n {
    } else if i < n + k.len() {
        assert(all[i] == k[i - n]);
        lemma_kans(v, i - n);
    } else if i < n + k.len() + d.len() {
        assert(all[i] == d[i - n - k.len()]);
    } else {
        let j = i - n - k.len() - d.len();
        assert(all[i] == e[j]);
        lemma_riichis(v, discards_of_view(v), j);
    }
}

proof fn lemma_kans(v: TableFacts, i: int)
    requires
        0 <= i < kans_of(v).len(),
    ensures
        kans_of(v)[i] is Ankan || kans_of(v)[i] is Kakan,
{
    let a = ankans(v);
    let b = kakans(v.me.hand, v.me.melds);
    if i < a.len() {
        assert(kans_of(v)[i] == a[i]);
    } else {
        assert(kans_of(v)[i] == b[i - a.len()]);
        lemma_kakans(v.me.hand, v.me.melds, i - a.len());
    }
}

proof fn lemma_kakans(hand: Seq<Tile>, melds: Seq<crate::mahjong::meld::Meld>, i: int)
    requires
        0 <= i < kakans(hand, melds).len(),
    ensures
        kakans(hand, melds)[i] is Kakan,
    decreases melds.len(),
{
    if melds.len() > 0 {
        let rest = kakans(hand, melds.drop_last());
        if i < rest.len() {
            lemma_kakans(hand, melds.drop_last(), i);
        }
    }
}

proof fn lemma_riichis(v: TableFacts, s: Seq<Candidate>, i: int)
    requires
        0 <= i < riichis(v, s).len(),
    ensures
        exists|j: int| 0 <= j < s.len() && leaves_tenpai(v, #[trigger] s[j]) && riichis(v, s)[i] == riichi_action(v, s[j]),
    decreases s.len(),
{
    if s.len() > 0 {
        let rest = riichis(v, s.drop_last());
        if leaves_tenpai(v, s.last()) && i == rest.len() {
            assert(leaves_tenpai(v, s[s.len() - 1]));
        } else {
            lemma_riichis(v, s.drop_last(), i);
            let j = choose|j: int|
                0 <= j < s.drop_last().len() && leaves_tenpai(v, #[trigger] s.drop_last()[j]) && rest[i] == riichi_action(
                    v,
                    s.drop_last()[j],
                );
            assert(s[j] == s.drop_last()[j]);
        }
    }
}

/// Tsumo is offered only with a complete hand that has a yaku.
pub proof fn offered_tsumo_wins(v: TableFacts)
    requires
        turn_actions(v).contains(TurnAction::Tsumo),
    ensures
        is_complete_view(v),
        tsumo_scores(v),
{
    let i = choose|i: int| 0 <= i < turn_actions(v).len() && turn_actions(v)[i] == TurnAction::Tsumo;
    lemma_kinds_of_turn_actions(v, i);
}

/// Riichi is offered only with a discard that the seat may make and that leaves it in tenpai,
/// closed, with a stick to put down and none declared yet.
pub proof fn offered_riichi_is_tenpai(v: TableFacts, i: int)
    requires
        0 <= i < turn_actions(v).len(),
        turn_actions(v)[i] is Riichi || turn_actions(v)[i] is DealerOpeningRiichi,
    ensures
        can_riichi(v),
        exists|j: int|
            0 <= j < discards_of_view(v).len() && leaves_tenpai(v, #[trigger] discards_of_view(v)[j]) && turn_actions(v)[i]
                == riichi_action(v, discards_of_view(v)[j]),
{
    lemma_kinds_of_turn_actions(v, i);
    let s = discards_of_view(v);
    let j = choose|j: int| 0 <= j < riichis(v, s).len() && turn_actions(v)[i] == #[trigger] riichis(v, s)[j];
    lemma_riichis(v, s, j);
}

} // verus!
